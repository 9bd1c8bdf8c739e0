use vstd::prelude::*;
use crate::bytes::AsBytes;
use crate::error::Error;
use super::zeros;

verus! {

/// A growable buffer.
#[derive(Clone, Eq, PartialEq, Debug)]
pub struct Buffer {
    inner: Vec<u8>,
    offset: usize,
    length: usize,
}

impl Buffer {
    /// The bytes of the backing vector.
    pub closed spec fn inner_bytes(&self) -> Seq<u8> {
        self.inner@
    }

    /// Where the current layer starts.
    pub closed spec fn offset_of(&self) -> nat {
        self.offset as nat
    }

    /// How long the current layer is.
    pub closed spec fn length_of(&self) -> nat {
        self.length as nat
    }

    /// Create a new growable buffer.
    pub fn new() -> (r: Self)
        ensures
            super::Buffer::wf(&r),
            r.inner_bytes() == Seq::<u8>::empty(),
            r.offset_of() == 0,
            r.length_of() == 0,
    {
        Buffer { inner: Vec::new(), offset: 0, length: 0 }
    }
}

impl Default for Buffer {
    fn default() -> (r: Self)
        ensures
            super::Buffer::wf(&r),
            r.inner_bytes() == Seq::<u8>::empty(),
            r.offset_of() == 0,
            r.length_of() == 0,
    {
        Buffer::new()
    }
}

impl super::Buffer for Buffer {
    type Inner = Vec<u8>;

    open spec fn backing(&self) -> Seq<u8> {
        self.inner_bytes()
    }

    open spec fn layer_start(&self) -> nat {
        self.offset_of()
    }

    open spec fn layer_len(&self) -> nat {
        self.length_of()
    }

    open spec fn claimed(&self) -> nat {
        self.inner_bytes().len()
    }

    open spec fn limit(&self) -> nat {
        usize::MAX as nat
    }

    open spec fn wf(&self) -> bool {
        &&& self.offset_of() + self.length_of() == self.inner_bytes().len()
        &&& self.inner_bytes().len() <= usize::MAX
    }

    open spec fn layer(&self) -> Seq<u8> {
        self.inner_bytes().subrange(
            self.offset_of() as int,
            (self.offset_of() + self.length_of()) as int,
        )
    }

    proof fn lemma_wf(&self) {
    }

    fn into_inner(self) -> (r: Self::Inner) {
        let r = self.inner;
        assert(r@ == self.inner_bytes());
        assert(r.bytes() == r@);
        assert(self.backing() == self.inner_bytes());
        r
    }

    fn next(&mut self, size: usize) -> (r: Result<(), Error>) {
        let current: usize = self.inner.len();
        if size > usize::MAX - current {
            return Err(Error::SmallBuffer);
        }
        self.offset = current;
        self.length = size;
        self.inner.resize(current + size, 0);
        proof {
            assert(self.inner@.take(self.inner@.len() as int) =~= old(self).inner@.take(
                current as int,
            ) + zeros(size as nat));
        }
        Ok(())
    }

    fn more(&mut self, size: usize) -> (r: Result<(), Error>) {
        let current: usize = self.inner.len();
        if size > usize::MAX - current {
            return Err(Error::SmallBuffer);
        }
        self.inner.resize(current + size, 0);
        self.length = self.length + size;
        proof {
            assert(self.inner@.take(self.inner@.len() as int) =~= old(self).inner@.take(
                current as int,
            ) + zeros(size as nat));
        }
        Ok(())
    }

    fn clear(&mut self)
        ensures
            final(self).inner_bytes() == Seq::<u8>::empty(),
    {
        self.inner.clear();
        self.offset = 0;
        self.length = 0;
    }

    fn used(&self) -> (r: usize) {
        self.inner.len()
    }

    fn offset(&self) -> (r: usize) {
        self.offset
    }

    fn length(&self) -> (r: usize) {
        self.length
    }

    fn data(&self) -> (r: &[u8]) {
        let end: usize = self.inner.len();
        vstd::slice::slice_subrange(self.inner.as_slice(), self.offset, end)
    }

    fn data_mut(&mut self) -> (r: &mut [u8]) {
        let (head, tail) = self.inner.as_mut_slice().split_at_mut(self.offset);
        proof {
            assert(final(head)@ == head@);
            assert(old(self).inner@.take(self.offset as int) == head@);
            assert(old(self).inner@.skip(old(self).inner@.len() as int) =~= Seq::<u8>::empty());
        }
        tail
    }
}

impl AsBytes for Buffer {
    open spec fn bytes(&self) -> Seq<u8> {
        if super::Buffer::wf(self) {
            super::Buffer::layer(self)
        } else {
            Seq::empty()
        }
    }

    proof fn lemma_bytes_len(&self) {
    }

    fn as_bytes(&self) -> (r: &[u8]) {
        if self.offset <= self.inner.len() && self.length == self.inner.len() - self.offset {
            vstd::slice::slice_subrange(
                self.inner.as_slice(),
                self.offset,
                self.offset + self.length,
            )
        } else {
            vstd::slice::slice_subrange(self.inner.as_slice(), 0, 0)
        }
    }
}

} // verus!
