pub mod frame;
pub mod packet;

pub use frame::Frame;
pub use frame::FrameError;
pub use packet::Packet;
pub use packet::PacketType;
