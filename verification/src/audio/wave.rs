use vstd::prelude::*;

verus! {

use crate::audio::SAMPLE_SCALE;
use crate::config::AudioConfig;
use crate::config::MAX_DURATION_MS;
use crate::config::MAX_FREQUENCY;

// ----------------------------------------------------------------------------
// Fixed-point sine
//
// A tone sample is a quantized sine value: phase runs in 256 steps per cycle,
// and the half-wave amplitude comes from Bhaskara's rational approximation
//     sin(pi * p / 128)  ~=  4 * w / (20480 - w) with w = p * (128 - p),
// scaled by SAMPLE_SCALE. The worst-case error of the approximation is under
// two tenths of a percent of full scale.
// ----------------------------------------------------------------------------

/// The first half-wave of the sine, for a phase step `p` in `[0, 128)`.
pub open spec fn half_sine(p: int) -> int {
    (4 * (p * (128 - p)) * (SAMPLE_SCALE as int)) / (20480 - p * (128 - p))
}

/// One full cycle of the sine, for a phase step `p` in `[0, 256)`: the second
/// half-wave mirrors the first below zero.
pub open spec fn sine_q(p: int) -> int {
    if p < 128 {
        half_sine(p)
    } else {
        -half_sine(p - 128)
    }
}

/// The sine value scaled by an amplitude factor (`SAMPLE_SCALE` is full
/// scale). The magnitude is scaled before the sign goes on, so the two
/// half-waves stay exact mirrors.
pub open spec fn scaled_sine(p: int, amp: int) -> int {
    if p < 128 {
        (amp * half_sine(p)) / (SAMPLE_SCALE as int)
    } else {
        -((amp * half_sine(p - 128)) / (SAMPLE_SCALE as int))
    }
}

/// The phase step, in 256ths of a cycle, reached by sample `i` of a tone at
/// `freq` hertz sampled at `rate` hertz.
pub open spec fn tone_phase(i: int, freq: int, rate: int) -> int {
    ((i * freq * 256) / rate) % 256
}

/// An `n`-sample tone at `freq` hertz and amplitude `amp`.
pub open spec fn scaled_tone_seq(freq: int, rate: int, n: nat, amp: int) -> Seq<i32> {
    Seq::new(n, |i: int| scaled_sine(tone_phase(i, freq, rate), amp) as i32)
}

/// `n` samples of silence.
pub open spec fn silence_seq(n: nat) -> Seq<i32> {
    Seq::new(n, |i: int| 0i32)
}

/// How many samples a duration in milliseconds spans at `rate` hertz.
pub open spec fn duration_samples(duration_ms: int, rate: int) -> int {
    duration_ms * rate / 1000
}

proof fn lemma_half_sine_bounds(p: int)
    requires
        0 <= p < 128,
    ensures
        0 <= half_sine(p) <= SAMPLE_SCALE,
{
    let w = p * (128 - p);
    assert(0 <= p * (128 - p) <= 4096) by (nonlinear_arith)
        requires
            0 <= p < 128,
    ;
    assert(0 <= (4 * w * (SAMPLE_SCALE as int)) / (20480 - w) <= SAMPLE_SCALE) by (nonlinear_arith)
        requires
            0 <= w <= 4096,
    ;
}

/// The full-scale sine keeps within full scale.
pub proof fn lemma_sine_q_bounds(p: int)
    requires
        0 <= p < 256,
    ensures
        -SAMPLE_SCALE <= sine_q(p) <= SAMPLE_SCALE,
{
    if p < 128 {
        lemma_half_sine_bounds(p);
    } else {
        lemma_half_sine_bounds(p - 128);
    }
}

/// The scaled sine keeps within the amplitude it was asked for.
pub proof fn lemma_scaled_sine_bounds(p: int, amp: int)
    requires
        0 <= p < 256,
        0 <= amp <= SAMPLE_SCALE,
    ensures
        -amp <= scaled_sine(p, amp) <= amp,
{
    let q = if p < 128 {
        p
    } else {
        p - 128
    };
    lemma_half_sine_bounds(q);
    let h = half_sine(q);
    assert(0 <= (amp * h) / (SAMPLE_SCALE as int) <= amp) by (nonlinear_arith)
        requires
            0 <= h <= SAMPLE_SCALE,
            0 <= amp,
    ;
}

/// The first half-wave of the sine, executably.
fn half_sine_value(p: u32) -> (r: i32)
    requires
        p < 128,
    ensures
        r as int == half_sine(p as int),
        0 <= r <= SAMPLE_SCALE,
{
    proof {
        assert(p * (128 - p) <= 4096) by (nonlinear_arith)
            requires
                p < 128,
        ;
    }
    let w: u32 = p * (128 - p);
    let num: u32 = 4 * w * 16384;
    let den: u32 = 20480 - w;
    proof {
        assert(num / den <= 16384 && (num as int) / (den as int) == half_sine(p as int))
            by (nonlinear_arith)
            requires
                w == p * (128 - p),
                w <= 4096,
                num == 4 * w * 16384,
                den == 20480 - w,
                p < 128,
        ;
    }
    (num / den) as i32
}

/// One full cycle of the sine, executably.
pub fn sine_value(p: u32) -> (r: i32)
    requires
        p < 256,
    ensures
        r as int == sine_q(p as int),
        -SAMPLE_SCALE <= r <= SAMPLE_SCALE,
{
    if p < 128 {
        half_sine_value(p)
    } else {
        let h = half_sine_value(p - 128);
        -h
    }
}

/// The sine value at amplitude `amp`, executably.
pub fn scaled_sine_value(p: u32, amp: i32) -> (r: i32)
    requires
        p < 256,
        0 <= amp <= SAMPLE_SCALE,
    ensures
        r as int == scaled_sine(p as int, amp as int),
        -amp <= r <= amp,
{
    proof {
        lemma_scaled_sine_bounds(p as int, amp as int);
    }
    if p < 128 {
        let h = half_sine_value(p);
        (amp * h) / SAMPLE_SCALE
    } else {
        let h = half_sine_value(p - 128);
        -((amp * h) / SAMPLE_SCALE)
    }
}

/// The phase step reached by sample `i`, executably.
pub fn tone_phase_value(i: usize, freq: u32, rate: u32) -> (p: u32)
    requires
        1 <= rate,
        freq <= MAX_FREQUENCY,
        i <= 0xFFFF_FFFF,
    ensures
        p as int == tone_phase(i as int, freq as int, rate as int),
        p < 256,
{
    proof {
        assert((i as u64) * (freq as u64) <= 0xFFFF_FFFFu64 * 1_000_000u64) by (nonlinear_arith)
            requires
                i <= 0xFFFF_FFFF,
                freq <= 1_000_000,
        ;
    }
    let prod: u64 = (i as u64) * (freq as u64) * 256;
    let p64: u64 = (prod / (rate as u64)) % 256;
    p64 as u32
}

/// Generate an `n`-sample tone at `freq` hertz and amplitude `amp`.
pub fn tone_samples(freq: u32, rate: u32, n: usize, amp: i32) -> (r: Vec<i32>)
    requires
        1 <= rate,
        1 <= freq <= MAX_FREQUENCY,
        0 <= amp <= SAMPLE_SCALE,
        n <= 0xFFFF_FFFF,
    ensures
        r@ == scaled_tone_seq(freq as int, rate as int, n as nat, amp as int),
{
    let ghost goal = scaled_tone_seq(freq as int, rate as int, n as nat, amp as int);
    let mut out: Vec<i32> = Vec::new();
    let mut i: usize = 0;
    while i < n
        invariant
            i <= n,
            n <= 0xFFFF_FFFF,
            1 <= rate,
            1 <= freq <= MAX_FREQUENCY,
            0 <= amp <= SAMPLE_SCALE,
            goal == scaled_tone_seq(freq as int, rate as int, n as nat, amp as int),
            out@ == goal.take(i as int),
        decreases n - i,
    {
        let p = tone_phase_value(i, freq, rate);
        let v = scaled_sine_value(p, amp);
        out.push(v);
        proof {
            assert(out@ =~= goal.take(i + 1));
        }
        i = i + 1;
    }
    proof {
        assert(goal.take(n as int) =~= goal);
    }
    out
}

/// Generate `n` samples of silence.
pub fn silence_samples(n: usize) -> (r: Vec<i32>)
    ensures
        r@ == silence_seq(n as nat),
{
    let ghost goal = silence_seq(n as nat);
    let mut out: Vec<i32> = Vec::new();
    let mut i: usize = 0;
    while i < n
        invariant
            i <= n,
            goal == silence_seq(n as nat),
            out@ == goal.take(i as int),
        decreases n - i,
    {
        out.push(0);
        proof {
            assert(out@ =~= goal.take(i + 1));
        }
        i = i + 1;
    }
    proof {
        assert(goal.take(n as int) =~= goal);
    }
    out
}

/// Convert a duration in milliseconds to a sample count.
pub(crate) fn duration_to_samples(duration_ms: u32, rate: u32) -> (n: usize)
    requires
        duration_ms <= MAX_DURATION_MS,
        rate <= 1_000_000,
    ensures
        n as int == duration_samples(duration_ms as int, rate as int),
        n <= 600_000_000,
{
    proof {
        assert((duration_ms as u64) * (rate as u64) <= 600_000u64 * 1_000_000u64)
            by (nonlinear_arith)
            requires
                duration_ms <= 600_000,
                rate <= 1_000_000,
        ;
    }
    let n64: u64 = (duration_ms as u64) * (rate as u64) / 1000;
    n64 as usize
}

// ----------------------------------------------------------------------------
// WaveGenerator
// ----------------------------------------------------------------------------

/// Produces tones and silences at the configured sample rate and amplitude.
pub struct WaveGenerator {
    pub config: AudioConfig,
}

impl WaveGenerator {
    pub fn new(config: AudioConfig) -> (g: Self)
        ensures
            g.config == config,
    {
        Self { config }
    }

    /// A tone at the base frequency, `duration_ms` milliseconds long.
    pub fn generate_tone(&self, duration_ms: u32) -> (r: Vec<i32>)
        requires
            self.config.wf(),
            duration_ms <= MAX_DURATION_MS,
        ensures
            r@ == scaled_tone_seq(
                self.config.base_frequency as int,
                self.config.sample_rate as int,
                duration_samples(duration_ms as int, self.config.sample_rate as int) as nat,
                self.config.amplitude as int,
            ),
    {
        self.generate_tone_with_frequency(duration_ms, self.config.base_frequency)
    }

    /// The synchronization tone: the sync frequency for the sync duration.
    pub fn generate_sync_tone(&self) -> (r: Vec<i32>)
        requires
            self.config.wf(),
        ensures
            r@ == scaled_tone_seq(
                self.config.sync_frequency as int,
                self.config.sample_rate as int,
                duration_samples(self.config.sync_duration as int, self.config.sample_rate as int)
                    as nat,
                self.config.amplitude as int,
            ),
    {
        self.generate_tone_with_frequency(self.config.sync_duration, self.config.sync_frequency)
    }

    /// A tone at an arbitrary frequency, `duration_ms` milliseconds long.
    pub fn generate_tone_with_frequency(&self, duration_ms: u32, frequency: u32) -> (r: Vec<i32>)
        requires
            self.config.wf(),
            duration_ms <= MAX_DURATION_MS,
            1 <= frequency <= MAX_FREQUENCY,
        ensures
            r@ == scaled_tone_seq(
                frequency as int,
                self.config.sample_rate as int,
                duration_samples(duration_ms as int, self.config.sample_rate as int) as nat,
                self.config.amplitude as int,
            ),
    {
        let n = duration_to_samples(duration_ms, self.config.sample_rate);
        tone_samples(frequency, self.config.sample_rate, n, self.config.amplitude)
    }

    /// Silence, `duration_ms` milliseconds long.
    pub fn generate_silence(&self, duration_ms: u32) -> (r: Vec<i32>)
        requires
            self.config.wf(),
            duration_ms <= MAX_DURATION_MS,
        ensures
            r@ == silence_seq(
                duration_samples(duration_ms as int, self.config.sample_rate as int) as nat,
            ),
    {
        let n = duration_to_samples(duration_ms, self.config.sample_rate);
        silence_samples(n)
    }
}

impl Default for WaveGenerator {
    fn default() -> (g: Self)
        ensures
            g.config == AudioConfig::default_spec(),
            g.config.wf(),
    {
        Self { config: AudioConfig::default() }
    }
}

// ----------------------------------------------------------------------------
// PulseDetector
// ----------------------------------------------------------------------------

/// Detects runs of loud samples and reports each run's length.
pub struct PulseDetector {
    pub config: AudioConfig,
    pub threshold: i32,
    pub min_pulse_samples: usize,
    pub max_pulse_samples: usize,
}

/// The pulse lengths found in `s` with threshold `thr`, given that `cur`
/// loud samples immediately precede `s`: a new length is emitted every time
/// a loud run ends.
pub open spec fn detect_rec(s: Seq<i32>, thr: int, cur: int) -> Seq<int>
    decreases s.len(),
{
    if s.len() == 0 {
        if cur > 0 {
            seq![cur]
        } else {
            seq![]
        }
    } else if abs_val(s[0] as int) > thr {
        detect_rec(s.drop_first(), thr, cur + 1)
    } else {
        if cur > 0 {
            seq![cur] + detect_rec(s.drop_first(), thr, 0)
        } else {
            detect_rec(s.drop_first(), thr, 0)
        }
    }
}

/// The magnitude of `x`.
pub open spec fn abs_val(x: int) -> int {
    if x >= 0 {
        x
    } else {
        -x
    }
}

impl PulseDetector {
    /// A detector at a tenth of full scale, accepting pulses within twenty
    /// percent of the configured base duration.
    pub fn new(config: AudioConfig) -> (d: Self)
        requires
            config.wf(),
        ensures
            d.config == config,
            d.threshold == SAMPLE_SCALE / 10,
            d.min_pulse_samples as int == duration_samples(
                config.base_duration as int,
                config.sample_rate as int,
            ) * 4 / 5,
            d.max_pulse_samples as int == duration_samples(
                config.base_duration as int,
                config.sample_rate as int,
            ) * 6 / 5,
    {
        let base = duration_to_samples(config.base_duration, config.sample_rate);
        let min_ps: usize = ((base as u64) * 4 / 5) as usize;
        let max_ps: usize = ((base as u64) * 6 / 5) as usize;
        Self {
            threshold: SAMPLE_SCALE / 10,
            min_pulse_samples: min_ps,
            max_pulse_samples: max_ps,
            config,
        }
    }

    pub fn with_threshold(self, threshold: i32) -> (d: Self)
        ensures
            d == (Self { threshold, ..self }),
    {
        Self { threshold, ..self }
    }

    /// The lengths of the loud runs in `samples`, in order; an unfinished
    /// run at the end still counts.
    pub fn detect_pulses(&self, samples: &[i32]) -> (r: Vec<usize>)
        requires
            self.threshold >= 0,
        ensures
            r@.map_values(|x: usize| x as int) == detect_rec(samples@, self.threshold as int, 0),
    {
        let ghost goal = detect_rec(samples@, self.threshold as int, 0);
        let mut pulses: Vec<usize> = Vec::new();
        let mut current_pulse: usize = 0;
        let mut i: usize = 0;
        proof {
            assert(samples@.skip(0) =~= samples@);
            assert(pulses@.map_values(|x: usize| x as int) + detect_rec(
                samples@,
                self.threshold as int,
                0,
            ) =~= detect_rec(samples@, self.threshold as int, 0));
        }
        while i < samples.len()
            invariant
                i <= samples@.len(),
                current_pulse <= i,
                self.threshold >= 0,
                goal == detect_rec(samples@, self.threshold as int, 0),
                goal == pulses@.map_values(|x: usize| x as int) + detect_rec(
                    samples@.skip(i as int),
                    self.threshold as int,
                    current_pulse as int,
                ),
            decreases samples@.len() - i,
        {
            let ghost rest = samples@.skip(i as int);
            let ghost mapped0 = pulses@.map_values(|x: usize| x as int);
            let ghost cur0 = current_pulse as int;
            proof {
                assert(rest.drop_first() =~= samples@.skip(i + 1));
                assert(rest[0] == samples@[i as int]);
            }
            let sample = samples[i];
            let loud = if sample >= 0 {
                sample > self.threshold
            } else {
                sample < -self.threshold
            };
            proof {
                assert(loud == (abs_val(rest[0] as int) > self.threshold as int));
            }
            if loud {
                current_pulse = current_pulse + 1;
                proof {
                    assert(detect_rec(rest, self.threshold as int, cur0) == detect_rec(
                        rest.drop_first(),
                        self.threshold as int,
                        cur0 + 1,
                    ));
                }
            } else {
                if current_pulse > 0 {
                    proof {
                        assert(detect_rec(rest, self.threshold as int, cur0) == seq![cur0]
                            + detect_rec(rest.drop_first(), self.threshold as int, 0));
                    }
                    pulses.push(current_pulse);
                    proof {
                        assert(pulses@.map_values(|x: usize| x as int) =~= mapped0.push(cur0));
                        assert(mapped0 + (seq![cur0] + detect_rec(
                            rest.drop_first(),
                            self.threshold as int,
                            0,
                        )) =~= mapped0.push(cur0) + detect_rec(
                            rest.drop_first(),
                            self.threshold as int,
                            0,
                        ));
                    }
                    current_pulse = 0;
                } else {
                    proof {
                        assert(detect_rec(rest, self.threshold as int, 0) == detect_rec(
                            rest.drop_first(),
                            self.threshold as int,
                            0,
                        ));
                    }
                }
            }
            i = i + 1;
        }
        let ghost mapped1 = pulses@.map_values(|x: usize| x as int);
        let ghost cur1 = current_pulse as int;
        proof {
            assert(samples@.skip(samples@.len() as int) =~= Seq::<i32>::empty());
        }
        if current_pulse > 0 {
            pulses.push(current_pulse);
            proof {
                assert(pulses@.map_values(|x: usize| x as int) =~= mapped1.push(cur1));
                assert(mapped1 + seq![cur1] =~= mapped1.push(cur1));
            }
        } else {
            proof {
                assert(mapped1 + Seq::<int>::empty() =~= mapped1);
            }
        }
        pulses
    }
}

} // verus!
