//! Messages about a problem with a parameter of a datagram.

pub mod packet;
pub use self::packet::Packet;
