use vstd::prelude::*;

verus! {

use crate::audio::SAMPLE_LIMIT;
use crate::audio::wave::abs_val;
use crate::audio::wave::sine_q;
use crate::audio::wave::sine_value;
use crate::audio::wave::tone_phase;
use crate::audio::wave::tone_phase_value;
use crate::config::MAX_FREQUENCY;
use crate::config::MAX_SAMPLE_RATE;
use crate::encoding::Encoder;
use crate::encoding::bit_of;
use crate::encoding::bits_to_byte;
use crate::encoding::bits_value;
use crate::encoding::lemma_bits_byte_round_trip;
use crate::error::AudioProtocolError;

/// The longest bit period the codec accepts, in samples.
pub const MAX_SAMPLES_PER_BIT: u32 = 1_048_576;

/// Frequency-shift-keying codec: each bit becomes a pure tone of
/// `samples_per_bit` samples, at `freq_1` for a one and `freq_0` for a zero;
/// decoding compares the signal energy at the two frequencies chunk by chunk.
#[derive(Debug, Clone, Copy, PartialEq, Eq, Structural)]
pub struct FSKEncoder {
    pub sample_rate: u32,
    pub freq_0: u32,
    pub freq_1: u32,
    pub samples_per_bit: u32,
}

// ----------------------------------------------------------------------------
// Specification
// ----------------------------------------------------------------------------

/// Bit `j` of the whole message, most significant bit of each byte first.
pub open spec fn bit_index(data: Seq<u8>, j: int) -> bool {
    bit_of(data[j / 8], j % 8)
}

/// The summed product of a chunk against the reference wave at `freq`,
/// `shift` phase steps ahead, over the first `n` samples: the real or
/// imaginary correlation underlying the Goertzel power estimate.
pub open spec fn corr_to(chunk: Seq<i32>, freq: int, rate: int, shift: int, n: int) -> int
    decreases n,
{
    if n <= 0 {
        0
    } else {
        corr_to(chunk, freq, rate, shift, n - 1) + (chunk[n - 1] as int) * sine_q(
            (tone_phase(n - 1, freq, rate) + shift) % 256,
        )
    }
}

/// The signal energy of a chunk at one target frequency: the squared
/// magnitude of the single-bin spectral estimate, which is exactly the
/// quantity the Goertzel recurrence computes.
pub open spec fn goertzel_energy_spec(chunk: Seq<i32>, freq: int, rate: int) -> int {
    let s = corr_to(chunk, freq, rate, 0, chunk.len() as int);
    let c = corr_to(chunk, freq, rate, 64, chunk.len() as int);
    s * s + c * c
}

impl FSKEncoder {
    /// Parameter ranges the codec is built for: a positive bit period within
    /// bounds, two distinct positive frequencies, and a sample rate beyond
    /// twice each of them (the Nyquist condition).
    pub open spec fn wf(&self) -> bool {
        &&& 1 <= self.samples_per_bit <= MAX_SAMPLES_PER_BIT
        &&& 1 <= self.freq_0
        &&& 1 <= self.freq_1
        &&& self.freq_0 != self.freq_1
        &&& 2 * self.freq_0 < self.sample_rate
        &&& 2 * self.freq_1 < self.sample_rate
        &&& self.sample_rate <= MAX_SAMPLE_RATE
    }

    /// The frequency that carries bit `j` of the message.
    pub open spec fn bit_frequency(&self, data: Seq<u8>, j: int) -> int {
        if bit_index(data, j) {
            self.freq_1 as int
        } else {
            self.freq_0 as int
        }
    }

    /// What `encode` produces: one tone per bit, in bit order, each tone
    /// starting at phase zero.
    pub open spec fn encode_seq(&self, data: Seq<u8>) -> Seq<i32> {
        let spb = self.samples_per_bit as int;
        Seq::new(
            (8 * spb * data.len()) as nat,
            |t: int|
                sine_q(
                    tone_phase(t % spb, self.bit_frequency(data, t / spb), self.sample_rate as int),
                ) as i32,
        )
    }

    /// How many chunks decoding partitions `samples` into: every full bit
    /// period, plus one trailing partial chunk if any samples remain.
    pub open spec fn num_chunks(&self, samples: Seq<i32>) -> int {
        (samples.len() + self.samples_per_bit - 1) / (self.samples_per_bit as int)
    }

    /// Chunk `c` of `samples`: a full bit period, or whatever remains.
    pub open spec fn chunk_of(&self, samples: Seq<i32>, c: int) -> Seq<i32> {
        let spb = self.samples_per_bit as int;
        let end = if (c + 1) * spb <= samples.len() {
            (c + 1) * spb
        } else {
            samples.len() as int
        };
        samples.subrange(c * spb, end)
    }

    /// The bit decoded from chunk `c`: whichever frequency carries more
    /// energy wins.
    pub open spec fn chunk_bit(&self, samples: Seq<i32>, c: int) -> bool {
        let chunk = self.chunk_of(samples, c);
        goertzel_energy_spec(chunk, self.freq_1 as int, self.sample_rate as int)
            > goertzel_energy_spec(chunk, self.freq_0 as int, self.sample_rate as int)
    }

    /// Every decoded bit, in order.
    pub open spec fn decode_bits_seq(&self, samples: Seq<i32>) -> Seq<bool> {
        Seq::new(self.num_chunks(samples) as nat, |c: int| self.chunk_bit(samples, c))
    }

    /// What `decode` produces: each group of eight bits packed into a byte,
    /// most significant first; a trailing group of fewer than eight bits is
    /// discarded.
    pub open spec fn decode_seq(&self, samples: Seq<i32>) -> Seq<u8> {
        let bits = self.decode_bits_seq(samples);
        Seq::new(
            (self.num_chunks(samples) / 8) as nat,
            |b: int| bits_value(bits.subrange(8 * b, 8 * b + 8)),
        )
    }

    pub fn new(sample_rate: u32, freq_0: u32, freq_1: u32, samples_per_bit: u32) -> (e: Self)
        requires
            1 <= samples_per_bit <= MAX_SAMPLES_PER_BIT,
            1 <= freq_0,
            1 <= freq_1,
            freq_0 != freq_1,
            2 * freq_0 < sample_rate,
            2 * freq_1 < sample_rate,
            sample_rate <= MAX_SAMPLE_RATE,
        ensures
            e == (FSKEncoder { sample_rate, freq_0, freq_1, samples_per_bit }),
            e.wf(),
    {
        Self { sample_rate, freq_0, freq_1, samples_per_bit }
    }

    /// The signal energy of one chunk at `target_freq`, executably: the two
    /// correlations accumulate in 64 bits and square into 128, which the
    /// amplitude and chunk-length bounds keep from overflowing.
    fn goertzel_energy(&self, chunk: &[i32], target_freq: u32) -> (e: i128)
        requires
            self.wf(),
            1 <= target_freq <= MAX_FREQUENCY,
            chunk@.len() <= MAX_SAMPLES_PER_BIT,
            forall|i: int|
                0 <= i < chunk@.len() ==> abs_val(chunk@[i] as int) <= SAMPLE_LIMIT as int,
        ensures
            e as int == goertzel_energy_spec(chunk@, target_freq as int, self.sample_rate as int),
    {
        let f = target_freq;
        let r = self.sample_rate;
        let mut s_acc: i64 = 0;
        let mut c_acc: i64 = 0;
        let mut i: usize = 0;
        while i < chunk.len()
            invariant
                self.wf(),
                1 <= f <= MAX_FREQUENCY,
                r == self.sample_rate,
                i <= chunk@.len(),
                chunk@.len() <= MAX_SAMPLES_PER_BIT,
                forall|k: int|
                    0 <= k < chunk@.len() ==> abs_val(chunk@[k] as int) <= SAMPLE_LIMIT as int,
                s_acc as int == corr_to(chunk@, f as int, r as int, 0, i as int),
                c_acc as int == corr_to(chunk@, f as int, r as int, 64, i as int),
                abs_val(s_acc as int) <= i * 536_870_912,
                abs_val(c_acc as int) <= i * 536_870_912,
            decreases chunk@.len() - i,
        {
            let p = tone_phase_value(i, f, r);
            let sin_ref = sine_value(p);
            let cos_ref = sine_value((p + 64) % 256);
            proof {
                assert(((p + 64) % 256) as int == (tone_phase(i as int, f as int, r as int) + 64)
                    % 256);
            }
            let x = chunk[i];
            proof {
                assert(abs_val(x as int) * abs_val(sin_ref as int) <= 32768 * 16384)
                    by (nonlinear_arith)
                    requires
                        abs_val(x as int) <= 32768,
                        abs_val(sin_ref as int) <= 16384,
                ;
                assert(abs_val((x as int) * (sin_ref as int)) == abs_val(x as int) * abs_val(
                    sin_ref as int,
                )) by (nonlinear_arith);
                assert(abs_val(x as int) * abs_val(cos_ref as int) <= 32768 * 16384)
                    by (nonlinear_arith)
                    requires
                        abs_val(x as int) <= 32768,
                        abs_val(cos_ref as int) <= 16384,
                ;
                assert(abs_val((x as int) * (cos_ref as int)) == abs_val(x as int) * abs_val(
                    cos_ref as int,
                )) by (nonlinear_arith);
                assert(i * 536_870_912 + 536_870_912 == (i + 1) * 536_870_912);
                assert(i * 536_870_912 <= 1_048_576 * 536_870_912) by (nonlinear_arith)
                    requires
                        0 <= i <= 1_048_576,
                ;
            }
            let term_s: i64 = (x as i64) * (sin_ref as i64);
            let term_c: i64 = (x as i64) * (cos_ref as i64);
            s_acc = s_acc + term_s;
            c_acc = c_acc + term_c;
            i = i + 1;
        }
        proof {
            assert(abs_val(s_acc as int) <= 1_048_576 * 536_870_912) by (nonlinear_arith)
                requires
                    abs_val(s_acc as int) <= i * 536_870_912,
                    0 <= i <= 1_048_576,
            ;
            assert(abs_val(c_acc as int) <= 1_048_576 * 536_870_912) by (nonlinear_arith)
                requires
                    abs_val(c_acc as int) <= i * 536_870_912,
                    0 <= i <= 1_048_576,
            ;
            assert(abs_val((s_acc as int) * (s_acc as int)) <= 562_949_953_421_312
                * 562_949_953_421_312 && abs_val((c_acc as int) * (c_acc as int))
                <= 562_949_953_421_312 * 562_949_953_421_312) by (nonlinear_arith)
                requires
                    abs_val(s_acc as int) <= 1_048_576 * 536_870_912,
                    abs_val(c_acc as int) <= 1_048_576 * 536_870_912,
            ;
        }
        (s_acc as i128) * (s_acc as i128) + (c_acc as i128) * (c_acc as i128)
    }
}

impl Default for FSKEncoder {
    /// The stock codec: 48 kHz, 1200 Hz for a zero, 2400 Hz for a one, 480
    /// samples per bit (100 bits per second).
    fn default() -> (e: Self)
        ensures
            e == (FSKEncoder {
                sample_rate: 48000,
                freq_0: 1200,
                freq_1: 2400,
                samples_per_bit: 480,
            }),
            e.wf(),
    {
        Self::new(48_000, 1_200, 2_400, 480)
    }
}

impl Encoder for FSKEncoder {
    open spec fn wf(&self) -> bool {
        self.wf()
    }

    /// The whole output, eight tones per input byte, must fit a vector.
    open spec fn encode_ok(&self, data: Seq<u8>) -> bool {
        8 * (self.samples_per_bit as int) * data.len() + (MAX_SAMPLES_PER_BIT as int)
            <= usize::MAX as int
    }

    /// Decoding accepts amplitudes up to `SAMPLE_LIMIT`, with room for one
    /// more bit period of samples below the address-space limit.
    open spec fn decode_ok(&self, samples: Seq<i32>) -> bool {
        &&& forall|i: int|
            0 <= i < samples.len() ==> abs_val(samples[i] as int) <= SAMPLE_LIMIT as int
        &&& samples.len() + (MAX_SAMPLES_PER_BIT as int) <= usize::MAX as int
    }

    open spec fn encode_spec(&self, data: Seq<u8>) -> Seq<i32> {
        self.encode_seq(data)
    }

    open spec fn decode_spec(&self, samples: Seq<i32>) -> Seq<u8> {
        self.decode_seq(samples)
    }

    /// Modulate: for every bit of every byte, most significant first, a pure
    /// tone of one bit period at that bit's frequency.
    fn encode(&self, data: &[u8]) -> (r: Result<Vec<i32>, AudioProtocolError>)
    {
        let ghost goal = self.encode_seq(data@);
        let spb = self.samples_per_bit as usize;
        let mut signal: Vec<i32> = Vec::new();
        let mut bi: usize = 0;
        while bi < data.len()
            invariant
                self.wf(),
                self.encode_ok(data@),
                spb == self.samples_per_bit as usize,
                goal == self.encode_seq(data@),
                bi <= data@.len(),
                signal@.len() == 8 * (spb as int) * bi,
                signal@ == goal.take(signal@.len() as int),
            decreases data@.len() - bi,
        {
            let byte = data[bi];
            proof {
                assert(8 * (spb as int) * (bi as int) == (8 * (bi as int) + 0) * (spb as int))
                    by (nonlinear_arith);
            }
            let mut k: usize = 0;
            while k < 8
                invariant
                    self.wf(),
                    self.encode_ok(data@),
                    spb == self.samples_per_bit as usize,
                    goal == self.encode_seq(data@),
                    bi < data@.len(),
                    byte == data@[bi as int],
                    k <= 8,
                    signal@.len() == (8 * (bi as int) + k) * (spb as int),
                    signal@ == goal.take(signal@.len() as int),
                decreases 8 - k,
            {
                let sh: u8 = (7 - k) as u8;
                let bit = ((byte >> sh) & 1) == 1;
                let freq = if bit {
                    self.freq_1
                } else {
                    self.freq_0
                };
                let ghost j = 8 * (bi as int) + k;
                proof {
                    assert(j / 8 == bi && j % 8 == k);
                    assert(bit == bit_index(data@, j));
                    assert(freq as int == self.bit_frequency(data@, j));
                    assert((8 * (bi as int) + k + 1) * (spb as int) == (8 * (bi as int) + k) * (
                    spb as int) + spb) by (nonlinear_arith);
                    assert((8 * (bi as int) + k) * (spb as int) + spb <= 8 * (spb as int)
                        * data@.len()) by (nonlinear_arith)
                        requires
                            0 <= k < 8,
                            0 <= bi < data@.len(),
                            0 <= spb,
                    ;
                }
                let mut s: usize = 0;
                while s < spb
                    invariant
                        self.wf(),
                        self.encode_ok(data@),
                        spb == self.samples_per_bit as usize,
                        goal == self.encode_seq(data@),
                        bi < data@.len(),
                        k < 8,
                        j == 8 * (bi as int) + k,
                        freq as int == self.bit_frequency(data@, j),
                        1 <= freq <= MAX_FREQUENCY,
                        s <= spb,
                        j * (spb as int) + spb <= goal.len(),
                        signal@.len() == j * (spb as int) + s,
                        signal@ == goal.take(signal@.len() as int),
                    decreases spb - s,
                {
                    let p = tone_phase_value(s, freq, self.sample_rate);
                    let v = sine_value(p);
                    let ghost t = signal@.len() as int;
                    proof {
                        vstd::arithmetic::div_mod::lemma_fundamental_div_mod_converse(
                            t,
                            spb as int,
                            j,
                            s as int,
                        );
                        assert(goal[t] == v);
                    }
                    signal.push(v);
                    proof {
                        assert(signal@ =~= goal.take(t + 1));
                    }
                    s = s + 1;
                }
                k = k + 1;
            }
            proof {
                assert((8 * (bi as int) + 8) * (spb as int) == 8 * (spb as int) * (bi + 1))
                    by (nonlinear_arith);
            }
            bi = bi + 1;
        }
        proof {
            assert(signal@.len() == goal.len()) by {
                assert(8 * (spb as int) * data@.len() == goal.len());
            }
            assert(signal@ =~= goal);
        }
        Ok(signal)
    }

    /// Demodulate: partition into bit-period chunks (a trailing partial
    /// chunk is processed as-is), decide each bit by comparing the energies
    /// at the two frequencies, and pack every eight bits into a byte.
    fn decode(&self, samples: &[i32]) -> (r: Result<Vec<u8>, AudioProtocolError>)
    {
        let spb = self.samples_per_bit as usize;
        let ghost nchunks = self.num_chunks(samples@);
        let ghost dbs = self.decode_bits_seq(samples@);
        let ghost goal = self.decode_seq(samples@);
        let mut decoded: Vec<u8> = Vec::new();
        let mut bits: Vec<bool> = Vec::new();
        let mut start: usize = 0;
        let ghost mut c: int = 0;
        proof {
            lemma_ceil_div_bounds(samples@.len() as int, spb as int);
            assert(bits@ =~= dbs.subrange(0, 0));
            assert(decoded@ =~= goal.take(0));
        }
        while start < samples.len()
            invariant
                self.wf(),
                self.decode_ok(samples@),
                spb == self.samples_per_bit as usize,
                nchunks == self.num_chunks(samples@),
                dbs == self.decode_bits_seq(samples@),
                goal == self.decode_seq(samples@),
                0 <= c <= nchunks,
                start as int == (if c * (spb as int) <= samples@.len() {
                    c * (spb as int)
                } else {
                    samples@.len() as int
                }),
                c > 0 ==> (c - 1) * (spb as int) < samples@.len(),
                bits@ == dbs.subrange(8 * (c / 8), c),
                decoded@ == goal.take(c / 8),
            decreases samples@.len() - start,
        {
            proof {
                // Inside the loop, no partial chunk has been taken yet.
                if c * (spb as int) > samples@.len() {
                    assert(false);
                }
                assert(start as int == c * (spb as int));
                assert(c < nchunks) by {
                    lemma_ceil_div_bounds(samples@.len() as int, spb as int);
                    if c >= nchunks {
                        vstd::arithmetic::mul::lemma_mul_inequality(nchunks, c, spb as int);
                    }
                }
                assert((c + 1) * (spb as int) == c * (spb as int) + spb) by (nonlinear_arith);
            }
            let end = if start + spb <= samples.len() {
                start + spb
            } else {
                samples.len()
            };
            let chunk = &samples[start..end];
            proof {
                assert(chunk@ =~= self.chunk_of(samples@, c));
                assert(forall|k: int|
                    0 <= k < chunk@.len() ==> abs_val(chunk@[k] as int) <= SAMPLE_LIMIT as int);
            }
            let e0 = self.goertzel_energy(chunk, self.freq_0);
            let e1 = self.goertzel_energy(chunk, self.freq_1);
            let bit = e1 > e0;
            proof {
                assert(bit == self.chunk_bit(samples@, c));
                assert(dbs[c] == bit);
            }
            bits.push(bit);
            proof {
                assert(bits@ =~= dbs.subrange(8 * (c / 8), c + 1));
            }
            if bits.len() == 8 {
                proof {
                    assert(c % 8 == 7);
                    assert((c + 1) / 8 == c / 8 + 1 && (c + 1) % 8 == 0);
                    assert(bits@ =~= dbs.subrange(8 * (c / 8), 8 * (c / 8) + 8));
                    assert(c / 8 < nchunks / 8);
                    assert(goal[c / 8] == bits_value(bits@));
                }
                let byte = bits_to_byte(bits.as_slice());
                decoded.push(byte);
                bits.clear();
                proof {
                    assert(decoded@ =~= goal.take((c + 1) / 8));
                    assert(bits@ =~= dbs.subrange(8 * ((c + 1) / 8), c + 1));
                }
            } else {
                proof {
                    assert(c % 8 < 7);
                    assert((c + 1) / 8 == c / 8);
                }
            }
            start = end;
            proof {
                c = c + 1;
                if c * (spb as int) > samples@.len() {
                    assert(start as int == samples@.len() as int);
                }
            }
        }
        proof {
            lemma_ceil_div_bounds(samples@.len() as int, spb as int);
            // The chunk counter reached exactly the chunk count.
            assert(c * (spb as int) >= samples@.len());
            if c < nchunks {
                vstd::arithmetic::mul::lemma_mul_inequality(c + 1, nchunks, spb as int);
                assert((c + 1) * (spb as int) == c * (spb as int) + spb) by (nonlinear_arith);
                assert(false);
            }
            assert(c == nchunks);
            assert(decoded@ =~= goal);
        }
        Ok(decoded)
    }
}

// ----------------------------------------------------------------------------
// Laws
// ----------------------------------------------------------------------------

/// The phase of a tone stays within one cycle's worth of steps.
proof fn lemma_tone_phase_range(i: int, freq: int, rate: int)
    requires
        0 <= i,
        1 <= freq,
        1 <= rate,
    ensures
        0 <= tone_phase(i, freq, rate) < 256,
{
    vstd::arithmetic::mul::lemma_mul_nonnegative(i, freq);
    vstd::arithmetic::mul::lemma_mul_nonnegative(i * freq, 256);
    vstd::arithmetic::div_mod::lemma_div_pos_is_pos(i * freq * 256, rate);
    vstd::arithmetic::div_mod::lemma_mod_bound((i * freq * 256) / rate, 256);
}

/// An encoded signal is itself acceptable decoder input: every sample stays
/// within full scale, well inside the decoder's amplitude limit.
pub proof fn lemma_encode_decode_ok(e: FSKEncoder, data: Seq<u8>)
    requires
        e.wf(),
        e.encode_ok(data),
    ensures
        e.decode_ok(e.encode_seq(data)),
{
    let enc = e.encode_seq(data);
    let spb = e.samples_per_bit as int;
    assert forall|t: int| 0 <= t < enc.len() implies abs_val(enc[t] as int)
        <= SAMPLE_LIMIT as int by {
        vstd::arithmetic::div_mod::lemma_mod_bound(t, spb);
        lemma_tone_phase_range(t % spb, e.bit_frequency(data, t / spb), e.sample_rate as int);
        crate::audio::wave::lemma_sine_q_bounds(
            tone_phase(t % spb, e.bit_frequency(data, t / spb), e.sample_rate as int),
        );
    }
}

/// Chunk `c` of an encoded signal is exactly one bit period of the pure tone
/// that carries bit `c`, starting at phase zero.
pub proof fn lemma_encode_chunk_is_tone(e: FSKEncoder, data: Seq<u8>, c: int)
    requires
        e.wf(),
        e.encode_ok(data),
        0 <= c < 8 * data.len(),
    ensures
        e.chunk_of(e.encode_seq(data), c) == Seq::new(
            e.samples_per_bit as nat,
            |i: int|
                sine_q(
                    tone_phase(i, e.bit_frequency(data, c), e.sample_rate as int),
                ) as i32,
        ),
{
    let enc = e.encode_seq(data);
    let spb = e.samples_per_bit as int;
    assert((c + 1) * spb == c * spb + spb) by (nonlinear_arith);
    assert(0 <= c * spb && (c + 1) * spb <= 8 * spb * data.len()) by (nonlinear_arith)
        requires
            0 <= c < 8 * data.len(),
            1 <= spb,
    ;
    let tone = Seq::new(
        e.samples_per_bit as nat,
        |i: int| sine_q(tone_phase(i, e.bit_frequency(data, c), e.sample_rate as int)) as i32,
    );
    assert forall|i: int| 0 <= i < spb implies e.chunk_of(enc, c)[i] == tone[i] by {
        let t = c * spb + i;
        vstd::arithmetic::div_mod::lemma_fundamental_div_mod_converse(t, spb, c, i);
    }
    assert(e.chunk_of(enc, c) =~= tone);
}

/// Law: whenever the energy detector favours the transmitted frequency on
/// every chunk of an encoded signal, decoding returns exactly the bytes that
/// were encoded. The premise is the analytic tone-discrimination property,
/// which lies beyond integer reasoning; the structure — chunk alignment, bit
/// order, and byte packing — is what this lemma proves.
pub proof fn lemma_fsk_round_trip(e: FSKEncoder, data: Seq<u8>)
    requires
        e.wf(),
        e.encode_ok(data),
        forall|c: int|
            0 <= c < 8 * data.len() ==> #[trigger] e.chunk_bit(e.encode_seq(data), c) == bit_index(
                data,
                c,
            ),
    ensures
        e.decode_seq(e.encode_seq(data)) == data,
{
    let enc = e.encode_seq(data);
    let spb = e.samples_per_bit as int;
    let n = 8 * data.len() as int;
    assert(enc.len() == n * spb) by (nonlinear_arith)
        requires
            enc.len() == 8 * spb * data.len(),
            n == 8 * data.len(),
    ;
    if data.len() == 0 {
        assert(e.num_chunks(enc) == 0) by {
            vstd::arithmetic::div_mod::lemma_fundamental_div_mod_converse(spb - 1, spb, 0, spb - 1);
        }
        assert(e.decode_seq(enc) =~= data);
    } else {
        assert(e.num_chunks(enc) == n) by {
            vstd::arithmetic::div_mod::lemma_fundamental_div_mod_converse(
                n * spb + spb - 1,
                spb,
                n,
                spb - 1,
            );
            assert(n * spb + spb - 1 == enc.len() + spb - 1);
        }
        let dbs = e.decode_bits_seq(enc);
        let dec = e.decode_seq(enc);
        assert(dec.len() == data.len());
        assert forall|b: int| 0 <= b < data.len() implies dec[b] == data[b] by {
            let bits = dbs.subrange(8 * b, 8 * b + 8);
            assert forall|k: int| 0 <= k < 8 implies bits[k] == bit_of(data[b], k) by {
                let j = 8 * b + k;
                assert(j / 8 == b && j % 8 == k);
                assert(e.chunk_bit(enc, j) == bit_index(data, j));
            }
            lemma_bits_byte_round_trip(bits, data[b]);
        }
        assert(dec =~= data);
    }
}

/// The ceiling division `(len + spb - 1) / spb` covers `len` and overshoots
/// by less than one divisor.
proof fn lemma_ceil_div_bounds(len: int, spb: int)
    requires
        1 <= spb,
        0 <= len,
    ensures
        ((len + spb - 1) / spb) * spb >= len,
        ((len + spb - 1) / spb) * spb < len + spb,
        (len + spb - 1) / spb >= 0,
{
    let x = len + spb - 1;
    vstd::arithmetic::div_mod::lemma_fundamental_div_mod(x, spb);
    vstd::arithmetic::div_mod::lemma_mod_bound(x, spb);
    vstd::arithmetic::div_mod::lemma_div_pos_is_pos(x, spb);
    assert(spb * (x / spb) == (x / spb) * spb) by (nonlinear_arith);
}

} // verus!
