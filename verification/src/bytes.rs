//! Byte storage: what a packet view can be laid over.

use vstd::prelude::*;

verus! {

/// Storage that can be read as a run of bytes.
///
/// Packet views are generic over this capability, so that one implementation
/// serves borrowed slices, owned vectors and references to either.
pub trait AsBytes {
    /// The bytes held by the storage.
    spec fn bytes(&self) -> Seq<u8>;

    /// There are no more bytes than a machine word counts.
    proof fn lemma_bytes_len(&self)
        ensures
            self.bytes().len() <= usize::MAX,
    ;

    /// Borrow the bytes.
    fn as_bytes(&self) -> (r: &[u8])
        ensures
            r@ == self.bytes(),
    ;
}

/// Storage whose bytes can also be overwritten in place.
pub trait AsBytesMut: AsBytes {
    /// Borrow the bytes mutably; what is written through the borrow is what
    /// the storage holds afterwards.
    fn as_bytes_mut(&mut self) -> (r: &mut [u8])
        ensures
            r@ == old(self).bytes(),
            (*final(self)).bytes() == final(r)@,
    ;
}

impl AsBytes for [u8] {
    open spec fn bytes(&self) -> Seq<u8> {
        self@
    }

    proof fn lemma_bytes_len(&self) {
        assert(self@.len() == self.len());
    }

    fn as_bytes(&self) -> (r: &[u8]) {
        self
    }
}

impl AsBytesMut for [u8] {
    fn as_bytes_mut(&mut self) -> (r: &mut [u8]) {
        self
    }
}

impl<const N: usize> AsBytes for [u8; N] {
    open spec fn bytes(&self) -> Seq<u8> {
        self@
    }

    proof fn lemma_bytes_len(&self) {
    }

    fn as_bytes(&self) -> (r: &[u8]) {
        self.as_slice()
    }
}

impl AsBytes for Vec<u8> {
    open spec fn bytes(&self) -> Seq<u8> {
        self@
    }

    proof fn lemma_bytes_len(&self) {
        assert(self@.len() == self.len());
    }

    fn as_bytes(&self) -> (r: &[u8]) {
        self.as_slice()
    }
}

impl AsBytesMut for Vec<u8> {
    fn as_bytes_mut(&mut self) -> (r: &mut [u8]) {
        self.as_mut_slice()
    }
}

impl<'a, B: AsBytes + ?Sized> AsBytes for &'a B {
    open spec fn bytes(&self) -> Seq<u8> {
        (**self).bytes()
    }

    proof fn lemma_bytes_len(&self) {
        (**self).lemma_bytes_len();
    }

    fn as_bytes(&self) -> (r: &[u8]) {
        (**self).as_bytes()
    }
}

impl<'a, B: AsBytes + ?Sized> AsBytes for &'a mut B {
    open spec fn bytes(&self) -> Seq<u8> {
        (**self).bytes()
    }

    proof fn lemma_bytes_len(&self) {
        (**self).lemma_bytes_len();
    }

    fn as_bytes(&self) -> (r: &[u8]) {
        (**self).as_bytes()
    }
}

impl<'a, B: AsBytesMut + ?Sized> AsBytesMut for &'a mut B {
    fn as_bytes_mut(&mut self) -> (r: &mut [u8]) {
        (**self).as_bytes_mut()
    }
}

/// Copy the bytes of any readable storage into a vector of their own.
pub fn to_vec<B: AsBytes + ?Sized>(storage: &B) -> (r: Vec<u8>)
    ensures
        r@ == storage.bytes(),
{
    vstd::slice::slice_to_vec(storage.as_bytes())
}

} // verus!
