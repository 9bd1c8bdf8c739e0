//! IPv6 packets, as far as their fixed header goes.

pub mod packet;
pub use self::packet::Packet;

pub mod builder;
pub use self::builder::Builder;
