//! The error type.

use vstd::prelude::*;

verus! {

/// Everything that can go wrong while parsing or building a packet.
#[derive(Debug, Clone, Copy, PartialEq, Eq, Structural)]
pub enum Error {
    /// A parse or a buffer growth needed more bytes than there are.
    SmallBuffer,
    /// A structural check on the packet failed.
    InvalidPacket,
    /// A setter was handed a value that does not fit the field.
    InvalidValue,
    /// A field that may be set at most once was set again.
    AlreadyDefined,
    /// A value could not be written in full: the bytes ran out.
    Io,
}

impl Error {
    /// The human readable description of the error.
    pub open spec fn message_of(self) -> Seq<char> {
        match self {
            Error::SmallBuffer => "the buffer is too small"@,
            Error::InvalidPacket => "the packet is invalid"@,
            Error::InvalidValue => "the vaue is invalid for the field"@,
            Error::AlreadyDefined => "the value has already been defined"@,
            Error::Io => "failed to write whole buffer"@,
        }
    }

    /// Describe the error in words.
    pub fn message(&self) -> (r: &'static str)
        ensures
            r@ == self.message_of(),
    {
        match self {
            Error::SmallBuffer => "the buffer is too small",
            Error::InvalidPacket => "the packet is invalid",
            Error::InvalidValue => "the vaue is invalid for the field",
            Error::AlreadyDefined => "the value has already been defined",
            Error::Io => "failed to write whole buffer",
        }
    }
}

} // verus!
