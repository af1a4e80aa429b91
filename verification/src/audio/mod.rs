use vstd::prelude::*;

pub mod buffer;
pub mod dev;
pub mod signal;
pub mod wave;

verus! {

/// Fixed-point amplitude scale: a sample value of `SAMPLE_SCALE` stands for
/// an amplitude of one.
pub const SAMPLE_SCALE: i32 = 16384;

/// The widest amplitude the decoding paths accept: twice full scale, so that
/// a slightly hot capture still decodes.
pub const SAMPLE_LIMIT: i32 = 32768;

} // verus!
