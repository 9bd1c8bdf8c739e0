//! Internet control messages.

use vstd::prelude::*;
use crate::checksum::{internet_checksum, internet_checksum_of};

mod kind;
pub use self::kind::Kind;

pub mod code;

pub mod packet;
pub use self::packet::Packet;

pub mod builder;
pub use self::builder::Builder;

pub mod echo;
pub mod information;
pub mod parameter_problem;
pub mod previous;
pub mod redirect_message;
pub mod timestamp;

verus! {

/// Calculate the checksum of a control message: the Internet checksum of the
/// whole message, the checksum field at byte 2 left out.
pub fn checksum(buffer: &[u8]) -> (r: u16)
    ensures
        r == internet_checksum_of(buffer@, 2),
{
    internet_checksum(buffer, 2)
}

} // verus!
