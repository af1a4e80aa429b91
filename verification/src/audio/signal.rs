use vstd::prelude::*;

verus! {

use crate::audio::SAMPLE_LIMIT;
use crate::audio::SAMPLE_SCALE;
use crate::audio::wave::abs_val;
use crate::encoding::Encoder;

/// The widest meter the monitor will draw.
pub const MAX_DISPLAY_WIDTH: usize = 10_000;

/// How many samples pass between peak decays: one second at 48 kHz.
pub const DECAY_SAMPLE_COUNT: usize = 48_000;

/// Each decay multiplies the peak by four fifths.
pub const PEAK_DECAY_NUM: i32 = 4;
pub const PEAK_DECAY_DEN: i32 = 5;

/// Below a thousandth of full scale, a decayed peak resets to silence.
pub const PEAK_EPSILON: i32 = 16;

/// Observes a live sample stream: tracks a decaying peak amplitude and runs
/// every batch through its own decoder, surfacing whatever decodes.
pub struct SignalMonitor<E: Encoder> {
    pub display_width: usize,
    pub peak_value: i32,
    pub samples_count: usize,
    pub last_peak_pos: Option<usize>,
    pub decoder: E,
}

/// The largest magnitude in `s`; zero when `s` is empty.
pub open spec fn max_abs(s: Seq<i32>) -> int
    decreases s.len(),
{
    if s.len() == 0 {
        0
    } else {
        let rest = max_abs(s.drop_last());
        if abs_val(s.last() as int) > rest {
            abs_val(s.last() as int)
        } else {
            rest
        }
    }
}

impl<E: Encoder> SignalMonitor<E> {
    /// A monitor within its working bounds, holding a well-formed decoder.
    pub open spec fn wf(&self) -> bool {
        &&& self.display_width <= MAX_DISPLAY_WIDTH
        &&& self.samples_count <= DECAY_SAMPLE_COUNT
        &&& 0 <= self.peak_value <= SAMPLE_LIMIT
        &&& self.decoder.wf()
    }

    pub fn new(display_width: usize, decoder: E) -> (m: Self)
        requires
            display_width <= MAX_DISPLAY_WIDTH,
            decoder.wf(),
        ensures
            m.display_width == display_width,
            m.peak_value == 0,
            m.samples_count == 0,
            m.last_peak_pos is None,
            m.decoder == decoder,
            m.wf(),
    {
        Self { display_width, peak_value: 0, samples_count: 0, last_peak_pos: None, decoder }
    }

    /// Feed one batch of samples: decode it, track the peak, and decay the
    /// peak once a second's worth of samples has passed. Returns the decoded
    /// bytes when the batch decodes to anything at all.
    pub fn process_samples(&mut self, samples: &[i32]) -> (r: Option<Vec<u8>>)
        requires
            old(self).wf(),
            old(self).decoder.decode_ok(samples@),
            forall|i: int|
                0 <= i < samples@.len() ==> abs_val(samples@[i] as int) <= SAMPLE_LIMIT as int,
            samples@.len() <= usize::MAX - DECAY_SAMPLE_COUNT,
        ensures
            final(self).wf(),
            final(self).display_width == old(self).display_width,
            final(self).decoder == old(self).decoder,
            match r {
                Some(v) => v@ == old(self).decoder.decode_spec(samples@) && v@.len() > 0,
                None => old(self).decoder.decode_spec(samples@).len() == 0,
            },
            ({
                let m = max_abs(samples@);
                let grew = samples@.len() > 0 && m > old(self).peak_value;
                let p1 = if grew {
                    m
                } else {
                    old(self).peak_value as int
                };
                let pos1 = if grew {
                    Some((p1 * old(self).display_width * 2 / (SAMPLE_SCALE as int)) as usize)
                } else {
                    old(self).last_peak_pos
                };
                let cnt1 = old(self).samples_count + samples@.len();
                if cnt1 > DECAY_SAMPLE_COUNT {
                    let p2 = p1 * (PEAK_DECAY_NUM as int) / (PEAK_DECAY_DEN as int);
                    &&& final(self).samples_count == 0
                    &&& (p2 < PEAK_EPSILON ==> final(self).peak_value == 0 && final(self).last_peak_pos is None)
                    &&& (p2 >= PEAK_EPSILON ==> final(self).peak_value == p2 && final(self).last_peak_pos == pos1)
                } else {
                    &&& final(self).samples_count == cnt1
                    &&& final(self).peak_value == p1
                    &&& final(self).last_peak_pos == pos1
                }
            }),
    {
        self.samples_count = self.samples_count + samples.len();
        // Try to decode whatever arrived.
        let mut decoded_data: Option<Vec<u8>> = None;
        match self.decoder.decode(samples) {
            Ok(data) => {
                if data.len() > 0 {
                    decoded_data = Some(data);
                }
            },
            Err(_) => {
                proof {
                    assert(false);
                }
            },
        }
        // Track the peak amplitude.
        let mut max_s: i32 = 0;
        let mut i: usize = 0;
        while i < samples.len()
            invariant
                i <= samples@.len(),
                forall|k: int|
                    0 <= k < samples@.len() ==> abs_val(samples@[k] as int) <= SAMPLE_LIMIT as int,
                0 <= max_s <= SAMPLE_LIMIT,
                max_s as int == max_abs(samples@.take(i as int)),
            decreases samples@.len() - i,
        {
            proof {
                assert(samples@.take(i + 1).drop_last() =~= samples@.take(i as int));
                assert(samples@.take(i + 1).last() == samples@[i as int]);
            }
            let s = samples[i];
            let a = if s >= 0 {
                s
            } else {
                -s
            };
            if a > max_s {
                max_s = a;
            }
            i = i + 1;
        }
        proof {
            assert(samples@.take(samples@.len() as int) =~= samples@);
        }
        if samples.len() > 0 {
            if max_s > self.peak_value {
                self.peak_value = max_s;
                proof {
                    assert(0 <= (max_s as int) * (self.display_width as int) * 2 <= 32768 * 10000
                        * 2) by (nonlinear_arith)
                        requires
                            0 <= max_s <= 32768,
                            0 <= self.display_width <= 10000,
                    ;
                    assert(0 <= (max_s as int) * (self.display_width as int) * 2 / 16384 <= 32768
                        * 10000 * 2) by (nonlinear_arith)
                        requires
                            0 <= (max_s as int) * (self.display_width as int) * 2 <= 32768 * 10000
                                * 2,
                    ;
                }
                let pos = ((max_s as i64) * (self.display_width as i64) * 2 / (
                SAMPLE_SCALE as i64)) as usize;
                self.last_peak_pos = Some(pos);
            }
        }
        // Decay the peak once a second of samples has gone by.
        if self.samples_count > DECAY_SAMPLE_COUNT {
            self.peak_value = self.peak_value * PEAK_DECAY_NUM / PEAK_DECAY_DEN;
            self.samples_count = 0;
            if self.peak_value < PEAK_EPSILON {
                self.peak_value = 0;
                self.last_peak_pos = None;
            }
        }
        decoded_data
    }
}

} // verus!
