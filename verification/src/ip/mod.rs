//! Internet Protocol packets, version 4 and version 6.

mod protocol;
pub use self::protocol::Protocol;

pub mod v4;
pub mod v6;

pub mod packet;
pub use self::packet::Packet;

pub mod builder;
pub use self::builder::Builder;
