//! Linux cooked capture frames.

pub mod packet;
pub use self::packet::{Packet, PacketType};

pub mod builder;
pub use self::builder::Builder;
