//! Messages about a datagram that was sent before: source quench,
//! destination unreachable and time exceeded.

pub mod packet;
pub use self::packet::Packet;
