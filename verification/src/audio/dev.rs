use vstd::prelude::*;

verus! {

use crate::encoding::Encoder;
use crate::encoding::FSKEncoder;
use crate::encoding::fsk::MAX_SAMPLES_PER_BIT;
use crate::proto::frame::END_MARKER_BYTE;
use crate::proto::frame::Frame;
use crate::proto::frame::FrameError;
use crate::proto::frame::MAX_PAYLOAD_SIZE;
use crate::proto::frame::PROTOCOL_VERSION;
use crate::proto::frame::SYNC_BYTE;
use crate::proto::frame::crc16_of;
use crate::proto::frame::crc_input;
use crate::proto::frame::crc_valid;
use crate::proto::frame::parse_ok;
use crate::proto::frame::parsed_payload;

/// The bytes a fresh frame around `payload` with sequence number `sequence`
/// occupies on the wire.
pub open spec fn spec_frame_bytes(payload: Seq<u8>, sequence: u8) -> Seq<u8> {
    let crc = crc16_of(crc_input(PROTOCOL_VERSION, sequence, 0, payload));
    seq![
        SYNC_BYTE,
        SYNC_BYTE,
        SYNC_BYTE,
        SYNC_BYTE,
        PROTOCOL_VERSION,
        ((payload.len() as u16) >> 8) as u8,
        ((payload.len() as u16) & 0xFF) as u8,
        sequence,
        0u8,
    ] + payload + seq![(crc >> 8) as u8, (crc & 0xFF) as u8, 0u8, 0u8, 0u8, 0u8] + seq![
        END_MARKER_BYTE,
        END_MARKER_BYTE,
    ]
}

/// The compute core of the channel device: wraps outbound bytes in frames
/// and modulates them, demodulates inbound samples and hunts for frames,
/// and keeps the running sequence number. The audio streams that carry the
/// samples live outside, in unverified device code.
pub struct ChannelCore {
    pub encoder: FSKEncoder,
    pub sequence: u8,
}

impl ChannelCore {
    pub open spec fn wf(&self) -> bool {
        self.encoder.wf()
    }

    pub fn new(encoder: FSKEncoder) -> (c: Self)
        requires
            encoder.wf(),
        ensures
            c.encoder == encoder,
            c.sequence == 0,
            c.wf(),
    {
        Self { encoder, sequence: 0 }
    }

    /// Wrap `data` in a frame carrying the next sequence number and
    /// modulate the frame into samples ready for playback. Fails exactly
    /// when the payload is oversized, leaving the sequence number alone.
    pub fn prepare_send(&mut self, data: &[u8]) -> (r: Result<Vec<i32>, FrameError>)
        requires
            old(self).wf(),
            8 * (old(self).encoder.samples_per_bit as int) * (data@.len() + 17) + (
            MAX_SAMPLES_PER_BIT as int) <= usize::MAX as int,
        ensures
            final(self).encoder == old(self).encoder,
            final(self).wf(),
            data@.len() > MAX_PAYLOAD_SIZE ==> r == Err::<Vec<i32>, FrameError>(
                FrameError::PayloadTooLarge,
            ) && *final(self) == *old(self),
            data@.len() <= MAX_PAYLOAD_SIZE ==> (r matches Ok(v) && v@ == old(self).encoder.encode_spec(
                spec_frame_bytes(data@, old(self).sequence),
            ) && final(self).sequence as int == (old(self).sequence + 1) % 256),
    {
        let frame = match Frame::new(data, self.sequence) {
            Ok(f) => f,
            Err(e) => {
                return Err(e);
            },
        };
        self.sequence = self.sequence.wrapping_add(1);
        let bytes = frame.serialize();
        proof {
            assert(bytes@ =~= spec_frame_bytes(data@, old(self).sequence));
        }
        match self.encoder.encode(bytes.as_slice()) {
            Ok(samples) => Ok(samples),
            Err(_) => {
                proof {
                    assert(false);
                }
                Err(FrameError::PayloadTooLarge)
            },
        }
    }

    /// Demodulate a batch of captured samples and try to read one frame off
    /// the front of the result. The payload comes back only for a complete,
    /// checksum-valid frame; everything else is the quiet common case of
    /// polling mid-transmission and surfaces as nothing.
    pub fn process_samples(&self, samples: &[i32]) -> (r: Option<Vec<u8>>)
        requires
            self.wf(),
            self.encoder.decode_ok(samples@),
        ensures
            ({
                let bytes = self.encoder.decode_spec(samples@);
                match r {
                    Some(v) => parse_ok(bytes) && crc_valid(bytes) && v@ == parsed_payload(bytes),
                    None => !(parse_ok(bytes) && crc_valid(bytes)),
                }
            }),
    {
        let decoded = match self.encoder.decode(samples) {
            Ok(d) => d,
            Err(_) => {
                proof {
                    assert(false);
                }
                return None;
            },
        };
        match Frame::deserialize(decoded.as_slice()) {
            Ok(Some(frame)) => Some(frame.payload),
            Ok(None) => None,
            Err(_) => None,
        }
    }
}

} // verus!
