use vstd::prelude::*;

verus! {

/// A typed unit of data above the frame layer; reserved for higher-level
/// message kinds that the current single-frame design does not yet use.
pub struct Packet {
    pub packet_type: PacketType,
    pub data: Vec<u8>,
}

#[derive(Debug, Clone, Copy)]
pub enum PacketType {
    Control,
    Data,
    Error,
}

} // verus!
