//! Size contracts: the least, the greatest and the actual extent of a
//! packet's header, of its payload, and of the two together.

use vstd::prelude::*;

pub mod header;
pub mod payload;

verus! {

/// Minimum size of a packet.
pub trait Min {
    /// The minimum size.
    spec fn min_size() -> nat;

    /// Get the minimum size.
    fn min() -> (r: usize)
        ensures
            r == Self::min_size(),
    ;
}

/// Maximum size of a packet.
pub trait Max {
    /// The maximum size.
    spec fn max_size() -> nat;

    /// Get the maximum size.
    fn max() -> (r: usize)
        ensures
            r == Self::max_size(),
    ;
}

/// Actual size of a packet.
pub trait Size {
    /// Whether the bytes in hand are enough to tell the size.
    spec fn sized(&self) -> bool;

    /// The actual size.
    spec fn total_size(&self) -> nat;

    /// Get the actual size.
    fn size(&self) -> (r: usize)
        requires
            self.sized(),
        ensures
            r == self.total_size(),
    ;
}

impl<T: header::Min + payload::Min> Min for T {
    open spec fn min_size() -> nat {
        T::header_min() + T::payload_min()
    }

    fn min() -> (r: usize) {
        <T as header::Min>::min() + <T as payload::Min>::min()
    }
}

impl<T: header::Max + payload::Max> Max for T {
    open spec fn max_size() -> nat {
        T::header_max() + T::payload_max()
    }

    fn max() -> (r: usize) {
        <T as header::Max>::max() + <T as payload::Max>::max()
    }
}

impl<T: header::Size + payload::Size> Size for T {
    open spec fn sized(&self) -> bool {
        &&& self.header_sized()
        &&& self.payload_sized()
        &&& self.header_size() + self.payload_size() <= usize::MAX
    }

    open spec fn total_size(&self) -> nat {
        self.header_size() + self.payload_size()
    }

    fn size(&self) -> (r: usize) {
        header::Size::size(self) + payload::Size::size(self)
    }
}

/// Size composition: the least size of a packet is that of its header and
/// that of its payload together.
pub proof fn lemma_min_composition<T: header::Min + payload::Min>()
    ensures
        T::min_size() == T::header_min() + T::payload_min(),
{
}

/// Size composition: the greatest size of a packet is that of its header and
/// that of its payload together.
pub proof fn lemma_max_composition<T: header::Max + payload::Max>()
    ensures
        T::max_size() == T::header_max() + T::payload_max(),
{
}

/// Size composition: the size of a packet is the size of its header and the
/// size of its payload together.
pub proof fn lemma_size_composition<T: header::Size + payload::Size>(packet: &T)
    ensures
        packet.total_size() == packet.header_size() + packet.payload_size(),
{
}

} // verus!
