use vstd::prelude::*;

verus! {

/// Minimum size of a packet header.
pub trait Min {
    /// The minimum size; it fits a 16 bit length field.
    spec fn header_min() -> nat;

    /// Get the minimum size.
    fn min() -> (r: usize)
        ensures
            r == Self::header_min(),
            r <= u16::MAX,
    ;
}

/// Maximum size of a packet header.
pub trait Max {
    /// The maximum size; it fits a 16 bit length field.
    spec fn header_max() -> nat;

    /// Get the maximum size.
    fn max() -> (r: usize)
        ensures
            r == Self::header_max(),
            r <= u16::MAX,
    ;
}

/// Actual size of the packet header.
pub trait Size {
    /// Whether the bytes in hand are enough to tell the header's size.
    spec fn header_sized(&self) -> bool;

    /// The actual size.
    spec fn header_size(&self) -> nat;

    /// Get the actual size.
    fn size(&self) -> (r: usize)
        requires
            self.header_sized(),
        ensures
            r == self.header_size(),
    ;
}

} // verus!
