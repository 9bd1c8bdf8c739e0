//! Timestamp requests and replies.

pub mod packet;
pub use self::packet::Packet;

pub mod builder;
pub use self::builder::Builder;
