use vstd::prelude::*;

verus! {

/// Minimum size of a packet payload.
pub trait Min {
    /// The minimum size; it fits a 16 bit length field.
    spec fn payload_min() -> nat;

    /// Get the minimum size.
    fn min() -> (r: usize)
        ensures
            r == Self::payload_min(),
            r <= u16::MAX,
    ;
}

/// Maximum size of a packet payload.
pub trait Max {
    /// The maximum size; it fits a 16 bit length field.
    spec fn payload_max() -> nat;

    /// Get the maximum size.
    fn max() -> (r: usize)
        ensures
            r == Self::payload_max(),
            r <= u16::MAX,
    ;
}

/// Actual size of the packet payload.
pub trait Size {
    /// Whether the bytes in hand are enough to tell the payload's size.
    spec fn payload_sized(&self) -> bool;

    /// The actual size.
    spec fn payload_size(&self) -> nat;

    /// Get the actual size.
    fn size(&self) -> (r: usize)
        requires
            self.payload_sized(),
        ensures
            r == self.payload_size(),
    ;
}

} // verus!
