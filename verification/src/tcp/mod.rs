//! TCP segments.

use vstd::prelude::*;
use crate::bytes::AsBytes;
use crate::checksum::pseudo_header_checksum;
use crate::ip::Protocol;
use crate::ip;

pub mod flag;
pub use self::flag::Flags;

pub mod option;
pub use self::option::Option;

pub mod packet;
pub use self::packet::Packet;

pub mod builder;
pub use self::builder::Builder;

verus! {

/// Calculate the checksum for a TCP packet: the Internet checksum of the
/// segment behind the pseudo-header of the IP packet that carries it, the
/// checksum field at byte 16 left out.
pub fn checksum<B: AsBytes>(ip: &ip::Packet<B>, buffer: &[u8]) -> (r: u16)
    requires
        packet::addressed(ip),
    ensures
        r == packet::checksum_of(*ip is V4, ip@, buffer@),
{
    let prefix: Vec<u8> = ip.pseudo_header(Protocol::Tcp.into_number(), buffer.len());
    pseudo_header_checksum(prefix.as_slice(), buffer, 16)
}

} // verus!
