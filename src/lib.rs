//! A TCP segment held in one byte buffer: a fixed 20-byte header in network
//! byte order followed by the payload, with the IPv4 pseudo-header checksum.

pub mod checksum;
pub mod layout;
pub mod packet;

pub use packet::{PacketError, TCPPacket};
