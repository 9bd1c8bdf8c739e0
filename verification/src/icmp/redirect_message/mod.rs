//! Messages that redirect traffic to another gateway.

pub mod packet;
pub use self::packet::Packet;
