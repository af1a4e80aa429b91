use vstd::prelude::*;

pub mod fsk;
pub mod morse;

pub use fsk::FSKEncoder;

verus! {

use crate::error::AudioProtocolError;

/// A codec between byte payloads and sample streams: one side of the modem.
/// `encode_spec` and `decode_spec` pin each implementation's behaviour down
/// exactly; callers hold an owned, swappable instance.
pub trait Encoder {
    /// The implementation's parameter invariant.
    spec fn wf(&self) -> bool;

    /// The inputs `encode` accepts (machine limits on the output size).
    spec fn encode_ok(&self, data: Seq<u8>) -> bool;

    /// The inputs `decode` accepts (amplitude and size limits).
    spec fn decode_ok(&self, samples: Seq<i32>) -> bool;

    /// What `encode` returns.
    spec fn encode_spec(&self, data: Seq<u8>) -> Seq<i32>;

    /// What `decode` returns.
    spec fn decode_spec(&self, samples: Seq<i32>) -> Seq<u8>;

    /// Modulate bytes into samples.
    fn encode(&self, data: &[u8]) -> (r: Result<Vec<i32>, AudioProtocolError>)
        requires
            self.wf(),
            self.encode_ok(data@),
        ensures
            r matches Ok(v) && v@ == self.encode_spec(data@),
    ;

    /// Demodulate samples back into bytes.
    fn decode(&self, samples: &[i32]) -> (r: Result<Vec<u8>, AudioProtocolError>)
        requires
            self.wf(),
            self.decode_ok(samples@),
        ensures
            r matches Ok(v) && v@ == self.decode_spec(samples@),
    ;
}

/// Bit `k` of `byte`, most significant first.
pub open spec fn bit_of(byte: u8, k: int) -> bool {
    ((byte >> ((7 - k) as u8)) & 1) == 1
}

/// The byte packed from `bits`, most significant first; with more than eight
/// bits the high bits fall off, as a left shift of a byte drops them.
pub open spec fn bits_value(bits: Seq<bool>) -> u8
    decreases bits.len(),
{
    if bits.len() == 0 {
        0u8
    } else {
        (bits_value(bits.drop_last()) << 1) | (if bits.last() {
            1u8
        } else {
            0u8
        })
    }
}

/// The eight bits of `byte`, most significant first.
pub fn byte_to_bits(byte: u8) -> (r: Vec<bool>)
    ensures
        r@.len() == 8,
        forall|k: int| 0 <= k < 8 ==> r@[k] == bit_of(byte, k),
{
    let mut r: Vec<bool> = Vec::new();
    let mut i: usize = 0;
    while i < 8
        invariant
            i <= 8,
            r@.len() == i,
            forall|k: int| 0 <= k < i ==> r@[k] == bit_of(byte, k),
        decreases 8 - i,
    {
        let sh: u8 = (7 - i) as u8;
        let bit = ((byte >> sh) & 1) == 1;
        proof {
            assert(sh == (7 - i as int) as u8);
        }
        r.push(bit);
        i = i + 1;
    }
    r
}

/// Pack bits into a byte, most significant first.
pub fn bits_to_byte(bits: &[bool]) -> (r: u8)
    ensures
        r == bits_value(bits@),
{
    let mut acc: u8 = 0;
    let mut i: usize = 0;
    proof {
        assert(bits@.take(0) =~= Seq::<bool>::empty());
    }
    while i < bits.len()
        invariant
            i <= bits@.len(),
            acc == bits_value(bits@.take(i as int)),
        decreases bits@.len() - i,
    {
        let b = bits[i];
        acc = (acc << 1) | (if b {
            1u8
        } else {
            0u8
        });
        proof {
            assert(bits@.take(i + 1).drop_last() =~= bits@.take(i as int));
            assert(bits@.take(i + 1).last() == bits@[i as int]);
        }
        i = i + 1;
    }
    proof {
        assert(bits@.take(bits@.len() as int) =~= bits@);
    }
    acc
}

/// Law: packing the eight bits of a byte gives the byte back;
/// `bits_to_byte` inverts `byte_to_bits`.
pub proof fn lemma_bits_byte_round_trip(bits: Seq<bool>, b: u8)
    requires
        bits.len() == 8,
        forall|k: int| 0 <= k < 8 ==> bits[k] == bit_of(b, k),
    ensures
        bits_value(bits) == b,
{
    assert(forall|x: u8| (x & 1) == 0 || (x & 1) == 1) by (bit_vector);
    let c0: u8 = (b >> 7) & 1;
    let c1: u8 = (b >> 6) & 1;
    let c2: u8 = (b >> 5) & 1;
    let c3: u8 = (b >> 4) & 1;
    let c4: u8 = (b >> 3) & 1;
    let c5: u8 = (b >> 2) & 1;
    let c6: u8 = (b >> 1) & 1;
    let c7: u8 = (b >> 0) & 1;
    let s0 = bits.take(0);
    let s1 = bits.take(1);
    let s2 = bits.take(2);
    let s3 = bits.take(3);
    let s4 = bits.take(4);
    let s5 = bits.take(5);
    let s6 = bits.take(6);
    let s7 = bits.take(7);
    assert(s0 =~= Seq::<bool>::empty());
    assert(s1.drop_last() =~= s0 && s2.drop_last() =~= s1 && s3.drop_last() =~= s2
        && s4.drop_last() =~= s3 && s5.drop_last() =~= s4 && s6.drop_last() =~= s5
        && s7.drop_last() =~= s6 && bits.drop_last() =~= s7);
    assert((if bits[0] {
        1u8
    } else {
        0u8
    }) == c0 && (if bits[1] {
        1u8
    } else {
        0u8
    }) == c1 && (if bits[2] {
        1u8
    } else {
        0u8
    }) == c2 && (if bits[3] {
        1u8
    } else {
        0u8
    }) == c3 && (if bits[4] {
        1u8
    } else {
        0u8
    }) == c4 && (if bits[5] {
        1u8
    } else {
        0u8
    }) == c5 && (if bits[6] {
        1u8
    } else {
        0u8
    }) == c6 && (if bits[7] {
        1u8
    } else {
        0u8
    }) == c7);
    assert(s1.last() == bits[0] && s2.last() == bits[1] && s3.last() == bits[2] && s4.last()
        == bits[3] && s5.last() == bits[4] && s6.last() == bits[5] && s7.last() == bits[6]
        && bits.last() == bits[7]);
    assert(bits_value(s0) == 0);
    assert(bits_value(s1) == (0u8 << 1) | c0);
    assert(bits_value(s2) == (bits_value(s1) << 1) | c1);
    assert(bits_value(s3) == (bits_value(s2) << 1) | c2);
    assert(bits_value(s4) == (bits_value(s3) << 1) | c3);
    assert(bits_value(s5) == (bits_value(s4) << 1) | c4);
    assert(bits_value(s6) == (bits_value(s5) << 1) | c5);
    assert(bits_value(s7) == (bits_value(s6) << 1) | c6);
    assert(bits_value(bits) == (bits_value(s7) << 1) | c7);
    assert((((((((((((((((0u8 << 1) | c0) << 1) | c1) << 1) | c2) << 1) | c3) << 1) | c4) << 1)
        | c5) << 1) | c6) << 1) | c7 == b) by (bit_vector)
        requires
            c0 == (b >> 7) & 1,
            c1 == (b >> 6) & 1,
            c2 == (b >> 5) & 1,
            c3 == (b >> 4) & 1,
            c4 == (b >> 3) & 1,
            c5 == (b >> 2) & 1,
            c6 == (b >> 1) & 1,
            c7 == (b >> 0) & 1,
    ;
}

} // verus!
