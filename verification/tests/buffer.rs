use acoustic_modem::audio::SAMPLE_SCALE;
use acoustic_modem::audio::buffer::BufferConfig;
use acoustic_modem::audio::buffer::BufferError;
use acoustic_modem::audio::buffer::OverflowStrategy;
use acoustic_modem::audio::buffer::RingBuffer;
use acoustic_modem::audio::buffer::UnderflowStrategy;

// Fixed-point samples standing for the amplitudes 1.0, 2.0, 3.0, 4.0, 5.0.
const S1: i32 = SAMPLE_SCALE;
const S2: i32 = 2 * SAMPLE_SCALE;
const S3: i32 = 3 * SAMPLE_SCALE;
const S4: i32 = 4 * SAMPLE_SCALE;
const S5: i32 = 5 * SAMPLE_SCALE;

#[test]
fn test_ring_buffer_basic() {
    let config = BufferConfig {
        capacity: 1000,
        overflow_strategy: OverflowStrategy::Error,
        underflow_strategy: UnderflowStrategy::Error,
    };
    let mut buffer = RingBuffer::new(config);

    let samples = vec![S1, S2, S3, S4, S5];
    buffer.push_samples(&samples).unwrap();
    assert_eq!(buffer.available(), 5);

    let retrieved = buffer.get_samples(3).unwrap();
    assert_eq!(retrieved, vec![S1, S2, S3]);
    assert_eq!(buffer.available(), 2);
}

#[test]
fn test_overflow_strategies() {
    // DropOldest keeps the most recent samples.
    let config = BufferConfig {
        capacity: 3,
        overflow_strategy: OverflowStrategy::DropOldest,
        underflow_strategy: UnderflowStrategy::Error,
    };
    let mut buffer = RingBuffer::new(config);

    buffer.push_samples(&[S1, S2, S3]).unwrap();
    buffer.push_samples(&[S4, S5]).unwrap();

    let samples = buffer.get_samples(3).unwrap();
    assert_eq!(samples, vec![S3, S4, S5]);
}

#[test]
fn test_underflow_strategies() {
    // Zero pads a short read with trailing zeros.
    let config = BufferConfig {
        capacity: 5,
        overflow_strategy: OverflowStrategy::Error,
        underflow_strategy: UnderflowStrategy::Zero,
    };
    let mut buffer = RingBuffer::new(config);

    buffer.push_samples(&[S1, S2]).unwrap();
    let samples = buffer.get_samples(4).unwrap();
    assert_eq!(samples, vec![S1, S2, 0, 0]);
}

#[test]
fn overflow_error_reports_batch_size() {
    let config = BufferConfig {
        capacity: 4,
        overflow_strategy: OverflowStrategy::Error,
        underflow_strategy: UnderflowStrategy::Error,
    };
    let mut buffer = RingBuffer::new(config);
    buffer.push_samples(&[S1, S2, S3]).unwrap();
    let err = buffer.push_samples(&[S4, S5]).unwrap_err();
    assert_eq!(err, BufferError::Overflow(2));
    // The refused push left the buffer unchanged.
    assert_eq!(buffer.available(), 3);
}

#[test]
fn underflow_error_reports_missing_count() {
    let config = BufferConfig {
        capacity: 8,
        overflow_strategy: OverflowStrategy::Error,
        underflow_strategy: UnderflowStrategy::Error,
    };
    let mut buffer = RingBuffer::new(config);
    buffer.push_samples(&[S1, S2, S3]).unwrap();
    let err = buffer.get_samples(5).unwrap_err();
    assert_eq!(err, BufferError::Underflow(2));
    assert_eq!(buffer.available(), 3);
}

#[test]
fn drop_strategy_discards_whole_batch() {
    let config = BufferConfig {
        capacity: 3,
        overflow_strategy: OverflowStrategy::Drop,
        underflow_strategy: UnderflowStrategy::Error,
    };
    let mut buffer = RingBuffer::new(config);
    buffer.push_samples(&[S1, S2]).unwrap();
    buffer.push_samples(&[S3, S4]).unwrap();
    assert_eq!(buffer.get_samples(2).unwrap(), vec![S1, S2]);
}

#[test]
fn clear_capacity_and_usage() {
    let config = BufferConfig {
        capacity: 1000,
        overflow_strategy: OverflowStrategy::Error,
        underflow_strategy: UnderflowStrategy::Error,
    };
    let mut buffer = RingBuffer::new(config);
    assert_eq!(buffer.capacity(), 1000);
    buffer.push_samples(&[S1; 250]).unwrap();
    assert_eq!(buffer.usage(), 250);
    buffer.clear();
    assert_eq!(buffer.available(), 0);
    assert_eq!(buffer.usage(), 0);
}

#[test]
fn default_config_is_one_second_at_48khz() {
    let buffer = RingBuffer::new(BufferConfig::default());
    assert_eq!(buffer.capacity(), 48000);
}
