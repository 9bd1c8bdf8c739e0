//! Layered network packet parsing and construction over a single byte buffer.
//!
//! Every protocol view is a thin wrapper over some byte storage, every builder
//! writes into a layered [`buffer::Buffer`], and the fix-ups that need the
//! whole assembled packet (lengths, checksums) are queued as
//! [`builder::Finalizer`]s and run once, at the end.

pub mod error;
pub mod bytes;
pub mod endian;
pub mod hw;
pub mod checksum;
pub mod size;
pub mod packet;
pub mod buffer;
pub mod builder;
pub mod ether;
pub mod arp;
pub mod sll;
pub mod ip;
pub mod icmp;
pub mod tcp;
pub mod udp;

pub use crate::error::Error;
pub use crate::bytes::{AsBytes, AsBytesMut};
pub use crate::size::Size;
pub use crate::packet::{Packet, PacketMut, AsPacket, AsPacketMut};
pub use crate::buffer::Buffer;
pub use crate::builder::Builder;
