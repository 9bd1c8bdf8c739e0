//! Layered byte buffers: one backing store, claimed layer by layer.

use vstd::prelude::*;
use crate::bytes::{AsBytes, AsBytesMut};
use crate::error::Error;

mod dynamic;
mod slice;

pub use self::dynamic::Buffer as Dynamic;
pub use self::slice::Buffer as Slice;

verus! {

/// `n` zero bytes.
pub open spec fn zeros(n: nat) -> Seq<u8> {
    Seq::new(n, |i: int| 0u8)
}

/// A buffer made of a stack of layers over one backing store. Only the
/// current layer, the last one claimed, can be read and written.
pub trait Buffer: Sized {
    /// Inner type used by the buffer.
    type Inner: AsBytesMut;

    /// The whole backing store.
    spec fn backing(&self) -> Seq<u8>;

    /// Where the current layer starts in the backing store.
    spec fn layer_start(&self) -> nat;

    /// How long the current layer is.
    spec fn layer_len(&self) -> nat;

    /// How many bytes of the backing store are claimed so far.
    spec fn claimed(&self) -> nat;

    /// How many bytes can be claimed at most.
    spec fn limit(&self) -> nat;

    /// The current layer lies within what is claimed, and that within what
    /// the backing store holds.
    spec fn wf(&self) -> bool;

    /// The bytes of the current layer.
    spec fn layer(&self) -> Seq<u8>;

    /// What well-formedness means: the layers lie where the counters say.
    proof fn lemma_wf(&self)
        requires
            self.wf(),
        ensures
            self.layer_start() + self.layer_len() <= self.claimed(),
            self.claimed() <= self.backing().len(),
            self.claimed() <= self.limit(),
            self.limit() <= usize::MAX,
            self.layer() == self.backing().subrange(
                self.layer_start() as int,
                (self.layer_start() + self.layer_len()) as int,
            ),
    ;

    /// Convert the buffer into the inner type.
    fn into_inner(self) -> (r: Self::Inner)
        requires
            self.wf(),
        ensures
            r.bytes() == self.backing(),
    ;

    /// Go to the next layer requesting the given size, zeroeing the layer.
    /// It fails, and changes nothing, where the size is more than is left.
    fn next(&mut self, size: usize) -> (r: Result<(), Error>)
        requires
            old(self).wf(),
        ensures
            (*final(self)).wf(),
            (*final(self)).limit() == old(self).limit(),
            r is Ok <==> old(self).claimed() + size <= old(self).limit(),
            r is Ok ==> {
                &&& (*final(self)).layer_start() == old(self).claimed()
                &&& (*final(self)).layer_len() == size
                &&& (*final(self)).claimed() == old(self).claimed() + size
                &&& (*final(self)).backing().take((*final(self)).claimed() as int)
                    == old(self).backing().take(old(self).claimed() as int) + zeros(size as nat)
            },
            r is Err ==> {
                &&& r == Err::<(), Error>(Error::SmallBuffer)
                &&& (*final(self)).layer_start() == old(self).layer_start()
                &&& (*final(self)).layer_len() == old(self).layer_len()
                &&& (*final(self)).claimed() == old(self).claimed()
                &&& (*final(self)).backing() == old(self).backing()
            },
    ;

    /// Request more memory for the same layer, zeroeing the new buffer area.
    /// It fails, and changes nothing, where the size is more than is left.
    fn more(&mut self, size: usize) -> (r: Result<(), Error>)
        requires
            old(self).wf(),
            old(self).layer_start() + old(self).layer_len() == old(self).claimed(),
        ensures
            (*final(self)).wf(),
            (*final(self)).limit() == old(self).limit(),
            r is Ok <==> old(self).claimed() + size <= old(self).limit(),
            r is Ok ==> {
                &&& (*final(self)).layer_start() == old(self).layer_start()
                &&& (*final(self)).layer_len() == old(self).layer_len() + size
                &&& (*final(self)).claimed() == old(self).claimed() + size
                &&& (*final(self)).backing().take((*final(self)).claimed() as int)
                    == old(self).backing().take(old(self).claimed() as int) + zeros(size as nat)
            },
            r is Err ==> {
                &&& r == Err::<(), Error>(Error::SmallBuffer)
                &&& (*final(self)).layer_start() == old(self).layer_start()
                &&& (*final(self)).layer_len() == old(self).layer_len()
                &&& (*final(self)).claimed() == old(self).claimed()
                &&& (*final(self)).backing() == old(self).backing()
            },
    ;

    /// Clear the buffer.
    fn clear(&mut self)
        ensures
            (*final(self)).wf(),
            (*final(self)).layer_start() == 0,
            (*final(self)).layer_len() == 0,
            (*final(self)).claimed() == 0,
            (*final(self)).limit() == old(self).limit(),
    ;

    /// Number of bytes used by the whole buffer.
    fn used(&self) -> (r: usize)
        requires
            self.wf(),
        ensures
            r == self.claimed(),
    ;

    /// Offset from the beginning of the whole buffer.
    fn offset(&self) -> (r: usize)
        requires
            self.wf(),
        ensures
            r == self.layer_start(),
    ;

    /// Length of the current layer.
    fn length(&self) -> (r: usize)
        requires
            self.wf(),
        ensures
            r == self.layer_len(),
    ;

    /// Get a slice over the current layer.
    fn data(&self) -> (r: &[u8])
        requires
            self.wf(),
        ensures
            r@ == self.layer(),
            r@.len() == self.layer_len(),
    ;

    /// Get a mutable slice over the current layer. What is written through
    /// it replaces the layer; nothing outside the layer can be reached. (A
    /// slice keeps its length, so the condition on it always holds.)
    fn data_mut(&mut self) -> (r: &mut [u8])
        requires
            old(self).wf(),
        ensures
            r@ == old(self).layer(),
            r@.len() == old(self).layer_len(),
            final(r)@.len() == r@.len() ==> ({
                &&& (*final(self)).wf()
                &&& (*final(self)).layer_start() == old(self).layer_start()
                &&& (*final(self)).layer_len() == old(self).layer_len()
                &&& (*final(self)).claimed() == old(self).claimed()
                &&& (*final(self)).limit() == old(self).limit()
                &&& (*final(self)).layer() == final(r)@
                &&& (*final(self)).backing() == old(self).backing().take(
                    old(self).layer_start() as int,
                ) + final(r)@ + old(self).backing().skip(
                    (old(self).layer_start() + old(self).layer_len()) as int,
                )
            }),
    ;
}

} // verus!
