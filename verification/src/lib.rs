//! An acoustic software modem: a frequency-shift-keying signal codec, a
//! length-prefixed and checksummed frame protocol riding on top of it, a
//! bounded sample ring buffer with configurable overflow and underflow
//! policies, and a pair of Morse text codecs sharing the same tone and
//! pulse primitives.
//!
//! Samples are fixed-point amplitudes: an `i32` in units of
//! `1 / audio::SAMPLE_SCALE`, so that `audio::SAMPLE_SCALE` stands for a
//! full-scale amplitude of one.

pub mod audio;
pub mod config;
pub mod encoding;
pub mod error;
pub mod lang;
pub mod morse;
pub mod proto;
