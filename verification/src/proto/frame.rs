use vstd::prelude::*;

verus! {

// Wire layout constants.
pub const SYNC_BYTE: u8 = 0xAA;
pub const END_MARKER_BYTE: u8 = 0xFF;
pub const HEADER_SIZE: usize = 9; // 4B sync + 1B version + 2B length + 1B sequence + 1B flags
pub const TRAILER_SIZE: usize = 8; // 2B CRC + 4B ECC + 2B end marker
pub const MAX_PAYLOAD_SIZE: usize = 1024;
pub const PROTOCOL_VERSION: u8 = 1;

// Frame flags.
pub const FLAG_FRAGMENT: u8 = 0x01; // Frame is part of a larger message
pub const FLAG_PRIORITY: u8 = 0x02; // High priority frame
pub const FLAG_CONTROL: u8 = 0x04; // Control frame (not data)
pub const FLAG_RETRANSMIT: u8 = 0x08; // Frame is being retransmitted

/// Errors a frame operation can report: an oversized payload at construction,
/// or a checksum mismatch on a frame whose boundaries already validated.
#[derive(Debug, Clone, Copy, PartialEq, Eq, Structural)]
pub enum FrameError {
    PayloadTooLarge,
    ChecksumMismatch,
}

// ----------------------------------------------------------------------------
// CRC-16/CCITT (polynomial 0x1021, initial value 0xFFFF), bit by bit.
// ----------------------------------------------------------------------------

/// One shift step of the CRC register: shift left, and fold the polynomial
/// back in when a one bit falls out.
pub open spec fn crc16_shift(c: u16) -> u16 {
    if c & 0x8000 != 0 {
        (c << 1) ^ 0x1021
    } else {
        c << 1
    }
}

/// Eight shift steps: what one input byte does to the register once mixed in.
pub open spec fn crc16_shift8(c: u16) -> u16 {
    crc16_shift(crc16_shift(crc16_shift(crc16_shift(crc16_shift(crc16_shift(crc16_shift(
        crc16_shift(c),
    )))))))
}

/// Absorb one byte into the CRC register.
pub open spec fn crc16_update(c: u16, b: u8) -> u16 {
    crc16_shift8(c ^ ((b as u16) << 8))
}

/// CRC-16/CCITT of a byte sequence, starting from 0xFFFF.
pub open spec fn crc16_of(data: Seq<u8>) -> u16
    decreases data.len(),
{
    if data.len() == 0 {
        0xFFFF
    } else {
        crc16_update(crc16_of(data.drop_last()), data.last())
    }
}

/// The bytes the frame checksum covers: version, sequence, flags, payload.
/// The sync marker and the length field stay outside the checksum.
pub open spec fn crc_input(version: u8, sequence: u8, flags: u8, payload: Seq<u8>) -> Seq<u8> {
    seq![version, sequence, flags] + payload
}

/// Absorb one byte, executably.
fn crc16_update_exec(c: u16, b: u8) -> (r: u16)
    ensures
        r == crc16_update(c, b),
{
    let mut x: u16 = c ^ ((b as u16) << 8);
    let mut k: usize = 0;
    while k < 8
        invariant
            k <= 8,
            x == crc16_shift_n(c ^ ((b as u16) << 8), k as nat),
        decreases 8 - k,
    {
        x = if x & 0x8000 != 0 {
            (x << 1) ^ 0x1021
        } else {
            x << 1
        };
        k = k + 1;
    }
    proof {
        lemma_crc16_shift_n_8(c ^ ((b as u16) << 8));
    }
    x
}

/// `crc16_shift` applied `n` times.
pub open spec fn crc16_shift_n(c: u16, n: nat) -> u16
    decreases n,
{
    if n == 0 {
        c
    } else {
        crc16_shift(crc16_shift_n(c, (n - 1) as nat))
    }
}

proof fn lemma_crc16_shift_n_8(c: u16)
    ensures
        crc16_shift_n(c, 8) == crc16_shift8(c),
{
    reveal_with_fuel(crc16_shift_n, 9);
}

// ----------------------------------------------------------------------------
// Wire format
// ----------------------------------------------------------------------------

/// The exact byte sequence a frame occupies on the wire.
pub open spec fn spec_serialize(f: Frame) -> Seq<u8> {
    seq![
        SYNC_BYTE,
        SYNC_BYTE,
        SYNC_BYTE,
        SYNC_BYTE,
        f.version,
        ((f.payload@.len() as u16) >> 8) as u8,
        ((f.payload@.len() as u16) & 0xFF) as u8,
        f.sequence,
        f.flags,
    ] + f.payload@ + seq![(f.crc >> 8) as u8, (f.crc & 0xFF) as u8] + f.ecc@ + seq![
        END_MARKER_BYTE,
        END_MARKER_BYTE,
    ]
}

/// The payload length the header declares.
pub open spec fn parsed_len(b: Seq<u8>) -> int {
    (((b[5] as u16) << 8) | (b[6] as u16)) as int
}

pub open spec fn parsed_version(b: Seq<u8>) -> u8 {
    b[4]
}

pub open spec fn parsed_sequence(b: Seq<u8>) -> u8 {
    b[7]
}

pub open spec fn parsed_flags(b: Seq<u8>) -> u8 {
    b[8]
}

pub open spec fn parsed_payload(b: Seq<u8>) -> Seq<u8> {
    b.subrange(HEADER_SIZE as int, HEADER_SIZE + parsed_len(b))
}

pub open spec fn parsed_crc(b: Seq<u8>) -> u16 {
    ((b[HEADER_SIZE + parsed_len(b)] as u16) << 8) | (b[HEADER_SIZE + parsed_len(b) + 1] as u16)
}

pub open spec fn parsed_ecc(b: Seq<u8>) -> Seq<u8> {
    b.subrange(HEADER_SIZE + parsed_len(b) + 2, HEADER_SIZE + parsed_len(b) + 6)
}

/// The soft parsing checks all pass on `b`: enough bytes, the sync marker in
/// place, a declared payload length that is within bounds and fits inside the
/// buffer, and the end marker in place. Only then is the checksum consulted.
pub open spec fn parse_ok(b: Seq<u8>) -> bool {
    &&& b.len() >= HEADER_SIZE + TRAILER_SIZE
    &&& b[0] == SYNC_BYTE
    &&& b[1] == SYNC_BYTE
    &&& b[2] == SYNC_BYTE
    &&& b[3] == SYNC_BYTE
    &&& parsed_len(b) <= MAX_PAYLOAD_SIZE
    &&& b.len() >= HEADER_SIZE + TRAILER_SIZE + parsed_len(b)
    &&& b[HEADER_SIZE + parsed_len(b) + 6] == END_MARKER_BYTE
    &&& b[HEADER_SIZE + parsed_len(b) + 7] == END_MARKER_BYTE
}

/// The stored checksum agrees with the one recomputed over the covered fields.
pub open spec fn crc_valid(b: Seq<u8>) -> bool {
    parsed_crc(b) == crc16_of(
        crc_input(parsed_version(b), parsed_sequence(b), parsed_flags(b), parsed_payload(b)),
    )
}

// ----------------------------------------------------------------------------
// Frame
// ----------------------------------------------------------------------------

/// The atomic, checksummed, length-delimited unit of data exchanged over the
/// acoustic channel.
#[derive(Debug, Clone)]
pub struct Frame {
    // Header fields
    pub version: u8,
    pub sequence: u8,
    pub flags: u8,
    // Data
    pub payload: Vec<u8>,
    // Trailer fields
    pub crc: u16,
    pub ecc: [u8; 4],
}

impl Frame {
    /// A well-formed frame: payload within bounds, checksum consistent with
    /// the covered fields, and the error-correction field left as the
    /// reserved all-zero placeholder.
    pub open spec fn wf(&self) -> bool {
        &&& self.payload@.len() <= MAX_PAYLOAD_SIZE
        &&& self.crc == crc16_of(crc_input(self.version, self.sequence, self.flags, self.payload@))
        &&& self.ecc@ =~= seq![0u8, 0u8, 0u8, 0u8]
    }

    /// Creates a new frame with the given payload and sequence number.
    /// Fails exactly when the payload exceeds `MAX_PAYLOAD_SIZE` bytes.
    pub fn new(payload: &[u8], sequence: u8) -> (r: Result<Self, FrameError>)
        ensures
            payload@.len() > MAX_PAYLOAD_SIZE ==> r == Err::<Self, FrameError>(
                FrameError::PayloadTooLarge,
            ),
            payload@.len() <= MAX_PAYLOAD_SIZE ==> (r matches Ok(f) && {
                &&& f.version == PROTOCOL_VERSION
                &&& f.sequence == sequence
                &&& f.flags == 0
                &&& f.payload@ == payload@
                &&& f.wf()
            }),
    {
        if payload.len() > MAX_PAYLOAD_SIZE {
            return Err(FrameError::PayloadTooLarge);
        }
        let mut frame = Frame {
            version: PROTOCOL_VERSION,
            sequence,
            flags: 0,
            payload: slice_to_vec_u8(payload),
            crc: 0,
            ecc: [0u8, 0u8, 0u8, 0u8],
        };
        frame.crc = frame.calculate_crc();
        Ok(frame)
    }

    /// CRC-16/CCITT over version, sequence, flags, and payload.
    fn calculate_crc(&self) -> (r: u16)
        ensures
            r == crc16_of(crc_input(self.version, self.sequence, self.flags, self.payload@)),
    {
        let ghost input = crc_input(self.version, self.sequence, self.flags, self.payload@);
        let mut c: u16 = 0xFFFF;
        c = crc16_update_exec(c, self.version);
        c = crc16_update_exec(c, self.sequence);
        c = crc16_update_exec(c, self.flags);
        proof {
            lemma_crc16_of_prefix3(self.version, self.sequence, self.flags, self.payload@);
        }
        let mut i: usize = 0;
        while i < self.payload.len()
            invariant
                i <= self.payload@.len(),
                input == crc_input(self.version, self.sequence, self.flags, self.payload@),
                c == crc16_of(input.take(3 + i)),
            decreases self.payload@.len() - i,
        {
            c = crc16_update_exec(c, self.payload[i]);
            proof {
                assert(input.take(3 + i + 1).drop_last() =~= input.take(3 + i));
                assert(input.take(3 + i + 1).last() == self.payload@[i as int]);
            }
            i = i + 1;
        }
        proof {
            assert(input.take(3 + self.payload@.len() as int) =~= input);
        }
        c
    }

    /// Lay the frame out on the wire: sync marker, header, payload, checksum,
    /// reserved error-correction bytes, end marker, all multi-byte fields
    /// big-endian.
    pub fn serialize(&self) -> (r: Vec<u8>)
        requires
            self.payload@.len() <= MAX_PAYLOAD_SIZE,
        ensures
            r@ == spec_serialize(*self),
    {
        let ghost goal = spec_serialize(*self);
        let mut out: Vec<u8> = Vec::new();
        // Header
        out.push(SYNC_BYTE);
        out.push(SYNC_BYTE);
        out.push(SYNC_BYTE);
        out.push(SYNC_BYTE);
        out.push(self.version);
        let len16: u16 = self.payload.len() as u16;
        out.push((len16 >> 8) as u8);
        out.push((len16 & 0xFF) as u8);
        out.push(self.sequence);
        out.push(self.flags);
        // Payload
        let ghost header = out@;
        let mut i: usize = 0;
        while i < self.payload.len()
            invariant
                i <= self.payload@.len(),
                header == goal.take(HEADER_SIZE as int),
                goal == spec_serialize(*self),
                out@ == header + self.payload@.take(i as int),
            decreases self.payload@.len() - i,
        {
            out.push(self.payload[i]);
            proof {
                assert(out@ =~= header + self.payload@.take(i + 1));
            }
            i = i + 1;
        }
        // Trailer
        out.push((self.crc >> 8) as u8);
        out.push((self.crc & 0xFF) as u8);
        out.push(self.ecc[0]);
        out.push(self.ecc[1]);
        out.push(self.ecc[2]);
        out.push(self.ecc[3]);
        out.push(END_MARKER_BYTE);
        out.push(END_MARKER_BYTE);
        proof {
            assert(self.payload@.take(self.payload@.len() as int) =~= self.payload@);
            assert(out@ =~= goal);
        }
        out
    }

    /// Try to parse one frame from the front of `buffer`.
    ///
    /// `Ok(None)` is the soft, resynchronizable outcome: too few bytes yet, a
    /// garbled sync marker, a declared payload length that is oversized or
    /// overruns the buffer, or a garbled end marker. Once the frame's
    /// boundaries have validated, a checksum mismatch is real corruption and
    /// comes back as a hard `Err(ChecksumMismatch)`.
    pub fn deserialize(buffer: &[u8]) -> (r: Result<Option<Self>, FrameError>)
        ensures
            !parse_ok(buffer@) ==> r == Ok::<Option<Self>, FrameError>(None),
            parse_ok(buffer@) && !crc_valid(buffer@) ==> r == Err::<Option<Self>, FrameError>(
                FrameError::ChecksumMismatch,
            ),
            parse_ok(buffer@) && crc_valid(buffer@) ==> (r matches Ok(Some(f)) && {
                &&& f.version == parsed_version(buffer@)
                &&& f.sequence == parsed_sequence(buffer@)
                &&& f.flags == parsed_flags(buffer@)
                &&& f.payload@ == parsed_payload(buffer@)
                &&& f.crc == parsed_crc(buffer@)
                &&& f.ecc@ == parsed_ecc(buffer@)
            }),
    {
        // Check minimum size
        if buffer.len() < HEADER_SIZE + TRAILER_SIZE {
            return Ok(None);
        }
        // Look for the sync marker
        if buffer[0] != SYNC_BYTE || buffer[1] != SYNC_BYTE || buffer[2] != SYNC_BYTE
            || buffer[3] != SYNC_BYTE {
            return Ok(None);
        }
        // Read header fields
        let version = buffer[4];
        let plen16: u16 = ((buffer[5] as u16) << 8) | (buffer[6] as u16);
        let plen: usize = plen16 as usize;
        let sequence = buffer[7];
        let flags = buffer[8];
        // A declared length beyond the maximum is garbage, not a frame
        if plen > MAX_PAYLOAD_SIZE {
            return Ok(None);
        }
        // Validate total frame size
        if buffer.len() - HEADER_SIZE < plen + TRAILER_SIZE {
            return Ok(None);
        }
        let off = HEADER_SIZE + plen;
        // Validate end marker
        if buffer[off + 6] != END_MARKER_BYTE || buffer[off + 7] != END_MARKER_BYTE {
            return Ok(None);
        }
        // Extract payload and trailer
        let payload = slice_to_vec_u8(&buffer[HEADER_SIZE..off]);
        let crc: u16 = ((buffer[off] as u16) << 8) | (buffer[off + 1] as u16);
        let ecc = [buffer[off + 2], buffer[off + 3], buffer[off + 4], buffer[off + 5]];
        let frame = Frame { version, sequence, flags, payload, crc, ecc };
        // Verify the checksum
        if frame.calculate_crc() != crc {
            return Err(FrameError::ChecksumMismatch);
        }
        proof {
            assert(frame.ecc@ =~= parsed_ecc(buffer@));
        }
        Ok(Some(frame))
    }

    // Getter methods
    pub fn sequence(&self) -> (s: u8)
        ensures
            s == self.sequence,
    {
        self.sequence
    }

    pub fn payload(&self) -> (p: &Vec<u8>)
        ensures
            p == &self.payload,
    {
        &self.payload
    }

    pub fn is_fragment(&self) -> (b: bool)
        ensures
            b == (self.flags & FLAG_FRAGMENT != 0),
    {
        self.flags & FLAG_FRAGMENT != 0
    }

    pub fn is_priority(&self) -> (b: bool)
        ensures
            b == (self.flags & FLAG_PRIORITY != 0),
    {
        self.flags & FLAG_PRIORITY != 0
    }

    pub fn is_control(&self) -> (b: bool)
        ensures
            b == (self.flags & FLAG_CONTROL != 0),
    {
        self.flags & FLAG_CONTROL != 0
    }

    pub fn is_retransmit(&self) -> (b: bool)
        ensures
            b == (self.flags & FLAG_RETRANSMIT != 0),
    {
        self.flags & FLAG_RETRANSMIT != 0
    }
}

/// Copy a byte slice into a fresh vector.
fn slice_to_vec_u8(s: &[u8]) -> (v: Vec<u8>)
    ensures
        v@ == s@,
{
    let mut v: Vec<u8> = Vec::new();
    let mut i: usize = 0;
    while i < s.len()
        invariant
            i <= s@.len(),
            v@ == s@.take(i as int),
        decreases s@.len() - i,
    {
        let b = s[i];
        v.push(b);
        proof {
            assert(v@ =~= s@.take(i + 1));
        }
        i = i + 1;
    }
    proof {
        assert(s@.take(s@.len() as int) =~= s@);
    }
    v
}

// ----------------------------------------------------------------------------
// Laws
// ----------------------------------------------------------------------------

/// Law: a serialized well-formed frame parses back intact. The soft parse
/// checks all pass, the checksum verifies, and every field reads back equal.
/// Together with the contracts of `serialize` and `deserialize`, this says
/// `deserialize(&serialize(&f))` returns `Ok(Some(g))` with `g`'s version,
/// sequence, flags, payload, checksum and reserved bytes equal to `f`'s.
pub proof fn lemma_frame_round_trip(f: Frame)
    requires
        f.wf(),
    ensures
        parse_ok(spec_serialize(f)),
        crc_valid(spec_serialize(f)),
        parsed_version(spec_serialize(f)) == f.version,
        parsed_sequence(spec_serialize(f)) == f.sequence,
        parsed_flags(spec_serialize(f)) == f.flags,
        parsed_payload(spec_serialize(f)) == f.payload@,
        parsed_crc(spec_serialize(f)) == f.crc,
        parsed_ecc(spec_serialize(f)) == f.ecc@,
{
    let b = spec_serialize(f);
    let n = f.payload@.len() as int;
    assert(b.len() == 17 + n);
    let x: u16 = f.payload@.len() as u16;
    assert(b[5] == ((x >> 8) as u8) && b[6] == ((x & 0xFF) as u8));
    assert(((((x >> 8) as u8) as u16) << 8) | (((x & 0xFF) as u8) as u16) == x) by (bit_vector);
    assert(parsed_len(b) == n);
    let c: u16 = f.crc;
    assert(b[HEADER_SIZE + n] == ((c >> 8) as u8) && b[HEADER_SIZE + n + 1] == ((c & 0xFF) as u8));
    assert(((((c >> 8) as u8) as u16) << 8) | (((c & 0xFF) as u8) as u16) == c) by (bit_vector);
    assert(parsed_payload(b) =~= f.payload@);
    assert(parsed_ecc(b) =~= f.ecc@);
}

/// Law: the checksum catches any single flipped bit in a covered byte. Flip
/// bit `k` of byte `i` of a serialized well-formed frame, where `i` lies in
/// the version, sequence, flags or payload region; the corrupted buffer still
/// passes every soft parse check, yet its checksum no longer verifies, so by
/// `deserialize`'s contract the corruption is reported as `ChecksumMismatch`
/// rather than silently accepted.
pub proof fn lemma_checksum_detects_bit_flip(f: Frame, i: int, k: int)
    requires
        f.wf(),
        0 <= k < 8,
        i == 4 || i == 7 || i == 8 || (HEADER_SIZE <= i < HEADER_SIZE + f.payload@.len()),
    ensures
        ({
            let b2 = spec_serialize(f).update(i, flip_bit(spec_serialize(f)[i], k));
            parse_ok(b2) && !crc_valid(b2)
        }),
{
    lemma_frame_round_trip(f);
    let b = spec_serialize(f);
    let n = f.payload@.len() as int;
    let b2 = b.update(i, flip_bit(b[i], k));
    let kk: u8 = k as u8;
    let old_byte: u8 = b[i];
    assert((old_byte ^ (1u8 << kk)) != old_byte) by (bit_vector)
        requires
            kk < 8,
    ;
    // The length field, the sync marker, the stored checksum, and the end
    // marker all lie outside the flipped region, so parsing is unaffected.
    assert(parsed_len(b2) == parsed_len(b));
    assert(parse_ok(b2));
    assert(parsed_crc(b2) == f.crc);
    // The covered fields of b2 differ from f's in exactly one byte.
    let m1 = crc_input(f.version, f.sequence, f.flags, f.payload@);
    let m2 = crc_input(parsed_version(b2), parsed_sequence(b2), parsed_flags(b2), parsed_payload(b2));
    let j: int = if i == 4 {
        0
    } else if i == 7 {
        1
    } else if i == 8 {
        2
    } else {
        3 + (i - HEADER_SIZE)
    };
    assert(parsed_payload(b2) =~= f.payload@.update(i - HEADER_SIZE, flip_bit(b[i], k)) || i < HEADER_SIZE);
    assert(m1.len() == m2.len());
    assert(m1[j] != m2[j]);
    assert(forall|t: int| 0 <= t < m1.len() && t != j ==> m1[t] == m2[t]);
    lemma_crc16_one_byte_diff(m1, m2, j);
    assert(!crc_valid(b2));
}

/// Byte `b` with bit `k` flipped (bit 0 the least significant).
pub open spec fn flip_bit(b: u8, k: int) -> u8 {
    b ^ (1u8 << (k as u8))
}

/// Changing the running CRC state changes it still after absorbing any
/// further byte, and two different bytes absorbed from one state disagree:
/// so two equal-length inputs differing in exactly one byte have different
/// checksums.
proof fn lemma_crc16_one_byte_diff(m1: Seq<u8>, m2: Seq<u8>, j: int)
    requires
        m1.len() == m2.len(),
        0 <= j < m1.len(),
        m1[j] != m2[j],
        forall|t: int| 0 <= t < m1.len() && t != j ==> m1[t] == m2[t],
    ensures
        crc16_of(m1) != crc16_of(m2),
    decreases m1.len(),
{
    if j == m1.len() - 1 {
        assert(m1.drop_last() =~= m2.drop_last());
        let c = crc16_of(m1.drop_last());
        let b1 = m1.last();
        let b2 = m2.last();
        assert(forall|s: u16, x: u8, y: u8|
            x != y ==> crc16_update(s, x) != crc16_update(s, y)) by (bit_vector);
    } else {
        lemma_crc16_one_byte_diff(m1.drop_last(), m2.drop_last(), j);
        assert(m1.last() == m2.last());
        assert(forall|s1: u16, s2: u16, x: u8|
            s1 != s2 ==> crc16_update(s1, x) != crc16_update(s2, x)) by (bit_vector);
    }
}

proof fn lemma_crc16_of_prefix3(version: u8, sequence: u8, flags: u8, payload: Seq<u8>)
    ensures
        crc16_of(crc_input(version, sequence, flags, payload).take(3)) == crc16_update(
            crc16_update(crc16_update(0xFFFF, version), sequence),
            flags,
        ),
{
    let input = crc_input(version, sequence, flags, payload);
    let s3 = input.take(3);
    let s2 = s3.drop_last();
    let s1 = s2.drop_last();
    let s0 = s1.drop_last();
    assert(s0 =~= Seq::<u8>::empty());
    assert(crc16_of(s0) == 0xFFFF);
    assert(s1.last() == version);
    assert(crc16_of(s1) == crc16_update(0xFFFF, version));
    assert(s2.last() == sequence);
    assert(crc16_of(s2) == crc16_update(crc16_update(0xFFFF, version), sequence));
    assert(s3.last() == flags);
    assert(crc16_of(s3) == crc16_update(
        crc16_update(crc16_update(0xFFFF, version), sequence),
        flags,
    ));
}

} // verus!
