use vstd::prelude::*;

verus! {

use crate::audio::SAMPLE_SCALE;

/// Upper bounds that keep every sample-count and phase computation inside
/// machine integer ranges.
pub const MAX_FREQUENCY: u32 = 1_000_000; // Hz
pub const MAX_SAMPLE_RATE: u32 = 1_000_000; // Hz
pub const MAX_DURATION_MS: u32 = 600_000; // ten minutes

/// The named audio constants of the system. Durations are in milliseconds,
/// frequencies in hertz.
#[derive(Debug, Clone, Copy)]
pub enum AudioConstant {
    SampleRate,
    BufferSize,
    Channels,
    BaseDuration,
    SyncDuration,
    BaseFrequency,
    SyncFrequency,
}

impl AudioConstant {
    /// The numeric value each constant names.
    pub open spec fn spec_value(&self) -> u32 {
        match self {
            AudioConstant::SampleRate => 48000,
            AudioConstant::BufferSize => 1024,
            AudioConstant::Channels => 1,
            AudioConstant::BaseDuration => 100,
            AudioConstant::SyncDuration => 200,
            AudioConstant::BaseFrequency => 800,
            AudioConstant::SyncFrequency => 440,
        }
    }

    pub fn as_u32(&self) -> (v: u32)
        ensures
            v == self.spec_value(),
    {
        match self {
            AudioConstant::SampleRate => 48000,
            AudioConstant::BufferSize => 1024,
            AudioConstant::Channels => 1,
            AudioConstant::BaseDuration => 100,
            AudioConstant::SyncDuration => 200,
            AudioConstant::BaseFrequency => 800,
            AudioConstant::SyncFrequency => 440,
        }
    }

    pub fn as_usize(&self) -> (v: usize)
        ensures
            v == self.spec_value(),
    {
        self.as_u32() as usize
    }
}

/// Audio configuration shared by the tone generator and the pulse detector.
/// Durations are in milliseconds; `amplitude` is a fixed-point factor with
/// `SAMPLE_SCALE` standing for full scale.
#[derive(Debug, Clone)]
pub struct AudioConfig {
    pub sample_rate: u32,
    pub channels: u16,
    pub buffer_size: usize,
    pub base_duration: u32,
    pub sync_duration: u32,
    pub base_frequency: u32,
    pub sync_frequency: u32,
    pub amplitude: i32,
}

impl AudioConfig {
    /// Parameter ranges under which tone generation cannot overflow.
    pub open spec fn wf(&self) -> bool {
        &&& 1 <= self.sample_rate <= MAX_SAMPLE_RATE
        &&& 1 <= self.base_frequency <= MAX_FREQUENCY
        &&& 1 <= self.sync_frequency <= MAX_FREQUENCY
        &&& self.base_duration <= MAX_DURATION_MS
        &&& self.sync_duration <= MAX_DURATION_MS
        &&& 0 <= self.amplitude <= SAMPLE_SCALE
    }

    // Getters
    pub fn sample_rate(&self) -> (v: u32)
        ensures
            v == self.sample_rate,
    {
        self.sample_rate
    }

    pub fn channels(&self) -> (v: u16)
        ensures
            v == self.channels,
    {
        self.channels
    }

    pub fn buffer_size(&self) -> (v: usize)
        ensures
            v == self.buffer_size,
    {
        self.buffer_size
    }

    pub fn base_duration(&self) -> (v: u32)
        ensures
            v == self.base_duration,
    {
        self.base_duration
    }

    pub fn sync_duration(&self) -> (v: u32)
        ensures
            v == self.sync_duration,
    {
        self.sync_duration
    }

    pub fn base_frequency(&self) -> (v: u32)
        ensures
            v == self.base_frequency,
    {
        self.base_frequency
    }

    pub fn sync_frequency(&self) -> (v: u32)
        ensures
            v == self.sync_frequency,
    {
        self.sync_frequency
    }

    pub fn amplitude(&self) -> (v: i32)
        ensures
            v == self.amplitude,
    {
        self.amplitude
    }

    // Builder methods
    pub fn with_sample_rate(self, rate: u32) -> (c: Self)
        ensures
            c == (Self { sample_rate: rate, ..self }),
    {
        Self { sample_rate: rate, ..self }
    }

    pub fn with_channels(self, channels: u16) -> (c: Self)
        ensures
            c == (Self { channels, ..self }),
    {
        Self { channels, ..self }
    }

    pub fn with_buffer_size(self, size: usize) -> (c: Self)
        ensures
            c == (Self { buffer_size: size, ..self }),
    {
        Self { buffer_size: size, ..self }
    }

    pub fn with_amplitude(self, amplitude: i32) -> (c: Self)
        ensures
            c == (Self { amplitude, ..self }),
    {
        Self { amplitude, ..self }
    }

    pub fn with_base_duration(self, duration: u32) -> (c: Self)
        ensures
            c == (Self { base_duration: duration, ..self }),
    {
        Self { base_duration: duration, ..self }
    }

    pub fn with_sync_duration(self, duration: u32) -> (c: Self)
        ensures
            c == (Self { sync_duration: duration, ..self }),
    {
        Self { sync_duration: duration, ..self }
    }

    pub fn with_base_frequency(self, freq: u32) -> (c: Self)
        ensures
            c == (Self { base_frequency: freq, ..self }),
    {
        Self { base_frequency: freq, ..self }
    }

    pub fn with_sync_frequency(self, freq: u32) -> (c: Self)
        ensures
            c == (Self { sync_frequency: freq, ..self }),
    {
        Self { sync_frequency: freq, ..self }
    }

    /// A short tour of the two ways to build a configuration.
    pub fn example_usage() {
        let config = AudioConfig::default();
        let custom_config = AudioConfig::default().with_sample_rate(44100).with_amplitude(
            11468,
        ).with_base_frequency(1000);
        let sample_rate = AudioConstant::SampleRate.as_u32();
        let duration_ms = AudioConstant::BaseDuration.as_u32();
    }
}

impl AudioConfig {
    /// The stock configuration: 48 kHz mono, half-scale amplitude, a 100 ms
    /// base pulse at 800 Hz, and a 200 ms sync pulse at 440 Hz.
    pub open spec fn default_spec() -> AudioConfig {
        AudioConfig {
            sample_rate: 48000,
            channels: 1,
            buffer_size: 1024,
            base_duration: 100,
            sync_duration: 200,
            base_frequency: 800,
            sync_frequency: 440,
            amplitude: (SAMPLE_SCALE / 2) as i32,
        }
    }
}

impl Default for AudioConfig {
    fn default() -> (c: Self)
        ensures
            c == AudioConfig::default_spec(),
            c.wf(),
    {
        Self {
            sample_rate: AudioConstant::SampleRate.as_u32(),
            channels: AudioConstant::Channels.as_u32() as u16,
            buffer_size: AudioConstant::BufferSize.as_usize(),
            base_duration: AudioConstant::BaseDuration.as_u32(),
            sync_duration: AudioConstant::SyncDuration.as_u32(),
            base_frequency: AudioConstant::BaseFrequency.as_u32(),
            sync_frequency: AudioConstant::SyncFrequency.as_u32(),
            amplitude: SAMPLE_SCALE / 2,
        }
    }
}

} // verus!
