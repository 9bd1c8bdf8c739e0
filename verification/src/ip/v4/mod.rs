//! IPv4 packets.

use vstd::prelude::*;
use crate::checksum::{internet_checksum, internet_checksum_of};

pub mod flag;
pub use self::flag::Flags;

pub mod option;
pub use self::option::Option;

pub mod packet;
pub use self::packet::Packet;

pub mod builder;
pub use self::builder::Builder;

verus! {

/// Calculate the checksum for an IPv4 packet: the Internet checksum of the
/// header, the checksum field at byte 10 left out.
pub fn checksum(buffer: &[u8]) -> (r: u16)
    ensures
        r == internet_checksum_of(buffer@, 10),
{
    internet_checksum(buffer, 10)
}

} // verus!
