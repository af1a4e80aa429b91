use acoustic_modem::audio::SAMPLE_SCALE;
use acoustic_modem::audio::dev::ChannelCore;
use acoustic_modem::audio::signal::SignalMonitor;
use acoustic_modem::audio::wave::PulseDetector;
use acoustic_modem::audio::wave::WaveGenerator;
use acoustic_modem::config::AudioConfig;
use acoustic_modem::config::AudioConstant;
use acoustic_modem::encoding::FSKEncoder;
use acoustic_modem::error::AudioProtocolError;
use acoustic_modem::proto::frame::FrameError;

#[test]
fn channel_round_trip_over_the_air() {
    // Transmit path and receive path meet in the middle: frame, modulate,
    // demodulate, deserialize.
    let mut sender = ChannelCore::new(FSKEncoder::default());
    let receiver = ChannelCore::new(FSKEncoder::default());
    let samples = sender.prepare_send(b"hello over sound").unwrap();
    let received = receiver.process_samples(&samples).unwrap();
    assert_eq!(received, b"hello over sound");
}

#[test]
fn channel_sequence_numbers_increment_and_wrap() {
    let mut core = ChannelCore::new(FSKEncoder::default());
    assert_eq!(core.sequence, 0);
    core.prepare_send(b"a").unwrap();
    assert_eq!(core.sequence, 1);
    core.sequence = 255;
    core.prepare_send(b"b").unwrap();
    assert_eq!(core.sequence, 0);
}

#[test]
fn channel_rejects_oversized_payload() {
    let mut core = ChannelCore::new(FSKEncoder::default());
    let big = vec![0u8; 1025];
    assert_eq!(core.prepare_send(&big).unwrap_err(), FrameError::PayloadTooLarge);
    // The failed send did not consume a sequence number.
    assert_eq!(core.sequence, 0);
}

#[test]
fn channel_silence_yields_no_frame() {
    let core = ChannelCore::new(FSKEncoder::default());
    let silence = vec![0i32; 480 * 16];
    assert!(core.process_samples(&silence).is_none());
}

#[test]
fn monitor_surfaces_decoded_frames_and_tracks_peak() {
    let mut sender = ChannelCore::new(FSKEncoder::default());
    let samples = sender.prepare_send(b"ping").unwrap();

    let mut monitor = SignalMonitor::new(40, FSKEncoder::default());
    let decoded = monitor.process_samples(&samples).unwrap();
    // What the monitor surfaces is the demodulated frame bytes.
    let frame = acoustic_modem::proto::frame::Frame::deserialize(&decoded).unwrap().unwrap();
    assert_eq!(frame.payload().as_slice(), b"ping");
    // The peak tracked the full-scale tones, and the batch was longer than
    // one decay period, so one four-fifths decay has already applied.
    assert_eq!(monitor.peak_value, SAMPLE_SCALE * 4 / 5);
    assert_eq!(monitor.samples_count, 0);
}

#[test]
fn monitor_peak_decays_after_a_second() {
    let mut monitor = SignalMonitor::new(40, FSKEncoder::default());
    let loud = vec![SAMPLE_SCALE; 100];
    let _ = monitor.process_samples(&loud);
    assert_eq!(monitor.peak_value, SAMPLE_SCALE);
    // Push past one second's worth of samples: the peak decays by 4/5.
    let quiet = vec![0i32; 48_000];
    let _ = monitor.process_samples(&quiet);
    assert_eq!(monitor.peak_value, SAMPLE_SCALE * 4 / 5);
    assert_eq!(monitor.samples_count, 0);
    // Repeated decays eventually drop the peak below the epsilon and reset
    // it to silence outright.
    for _ in 0..40 {
        let _ = monitor.process_samples(&vec![0i32; 48_001]);
    }
    assert_eq!(monitor.peak_value, 0);
    assert!(monitor.last_peak_pos.is_none());
}

#[test]
fn pulse_detector_measures_run_lengths() {
    let detector = PulseDetector::new(AudioConfig::default());
    let loud = SAMPLE_SCALE / 2;
    let mut samples = Vec::new();
    samples.extend(vec![loud; 10]);
    samples.extend(vec![0i32; 5]);
    samples.extend(vec![-loud; 3]);
    assert_eq!(detector.detect_pulses(&samples), vec![10, 3]);
    // Below the threshold nothing registers.
    let faint = vec![SAMPLE_SCALE / 20; 50];
    assert!(detector.detect_pulses(&faint).is_empty());
}

#[test]
fn wave_generator_tone_and_silence_lengths() {
    let generator = WaveGenerator::new(AudioConfig::default());
    // 100 ms at 48 kHz.
    let tone = generator.generate_tone(100);
    assert_eq!(tone.len(), 4800);
    assert_eq!(tone[0], 0);
    assert!(tone.iter().any(|&s| s > 0));
    assert!(tone.iter().all(|&s| -SAMPLE_SCALE <= s && s <= SAMPLE_SCALE));
    let silence = generator.generate_silence(100);
    assert_eq!(silence.len(), 4800);
    assert!(silence.iter().all(|&s| s == 0));
    // 200 ms of sync tone.
    assert_eq!(generator.generate_sync_tone().len(), 9600);
}

#[test]
fn audio_constants_and_config() {
    assert_eq!(AudioConstant::SampleRate.as_u32(), 48000);
    assert_eq!(AudioConstant::BufferSize.as_usize(), 1024);
    let config = AudioConfig::default()
        .with_sample_rate(44_100)
        .with_base_frequency(1000);
    assert_eq!(config.sample_rate(), 44_100);
    assert_eq!(config.base_frequency(), 1000);
    assert_eq!(config.channels(), 1);
}

#[test]
fn protocol_error_carries_its_message() {
    let err = AudioProtocolError::EncodingError(String::from("bad batch"));
    assert_eq!(err.message().as_str(), "bad batch");
}
