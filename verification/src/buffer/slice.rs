use vstd::prelude::*;
use crate::bytes::AsBytes;
use crate::error::Error;
use super::zeros;

verus! {

/// A static buffer.
pub struct Buffer<'a> {
    inner: &'a mut [u8],
    offset: usize,
    length: usize,
    used: usize,
}

impl<'a> Buffer<'a> {
    /// The bytes of the wrapped slice.
    pub closed spec fn inner_bytes(&self) -> Seq<u8> {
        self.inner@
    }

    /// Where the current layer starts.
    pub closed spec fn offset_of(&self) -> nat {
        self.offset as nat
    }

    /// How long the current layer is.
    pub closed spec fn length_of(&self) -> nat {
        self.length as nat
    }

    /// How many bytes of the slice are claimed.
    pub closed spec fn used_of(&self) -> nat {
        self.used as nat
    }

    /// Create a new static buffer wrapping the given slice.
    pub fn new(slice: &'a mut [u8]) -> (r: Buffer<'a>)
        ensures
            super::Buffer::wf(&r),
            r.inner_bytes() == old(slice)@,
            r.offset_of() == 0,
            r.length_of() == 0,
            r.used_of() == 0,
    {
        let ghost len = slice.len();
        Buffer { inner: slice, offset: 0, length: 0, used: 0 }
    }

    /// Write zeros over the `size` bytes that start at `from`.
    fn zero(&mut self, from: usize, size: usize)
        requires
            from + size <= old(self).inner@.len(),
        ensures
            final(self).offset == old(self).offset,
            final(self).length == old(self).length,
            final(self).used == old(self).used,
            final(self).inner@
                == old(self).inner@.take(from as int)
                    + zeros(size as nat)
                    + old(self).inner@.skip(from
                    + size),
    {
        let total: usize = self.inner.len();
        let end: usize = from + size;
        let mut i: usize = from;
        while i < end
            invariant
                from <= i <= end,
                end == from + size,
                end <= self.inner@.len(),
                self.offset == old(self).offset,
                self.length == old(self).length,
                self.used == old(self).used,
                self.inner@.len() == old(self).inner@.len(),
                forall|j: int|
                    0 <= j < self.inner@.len() ==> self.inner@[j] == if from <= j < i {
                        0u8
                    } else {
                        old(self).inner@[j]
                    },
            decreases end - i,
        {
            self.inner[i] = 0;
            i += 1;
        }
        assert(self.inner@
            =~= old(self).inner@.take(from as int) + zeros(size as nat) + old(self).inner@.skip(
                from + size,
            ));
    }
}

impl<'a> super::Buffer for Buffer<'a> {
    type Inner = &'a mut [u8];

    open spec fn backing(&self) -> Seq<u8> {
        self.inner_bytes()
    }

    open spec fn layer_start(&self) -> nat {
        self.offset_of()
    }

    open spec fn layer_len(&self) -> nat {
        self.length_of()
    }

    open spec fn claimed(&self) -> nat {
        self.used_of()
    }

    open spec fn limit(&self) -> nat {
        self.inner_bytes().len()
    }

    open spec fn wf(&self) -> bool {
        &&& self.offset_of() + self.length_of() == self.used_of()
        &&& self.used_of() <= self.inner_bytes().len()
        &&& self.inner_bytes().len() <= usize::MAX
    }

    open spec fn layer(&self) -> Seq<u8> {
        self.inner_bytes().subrange(
            self.offset_of() as int,
            (self.offset_of() + self.length_of()) as int,
        )
    }

    proof fn lemma_wf(&self) {
    }

    fn into_inner(self) -> (r: Self::Inner) {
        let r = self.inner;
        assert(r@ == self.inner_bytes());
        assert(r.bytes() == r@);
        r
    }

    fn next(&mut self, size: usize) -> (r: Result<(), Error>) {
        if self.inner.len() - self.used < size {
            return Err(Error::SmallBuffer);
        }
        let from: usize = self.used;
        self.offset = from;
        self.length = size;
        self.used = from + size;
        self.zero(from, size);
        proof {
            assert(self.inner@.take(self.used as int) =~= old(self).inner@.take(from as int)
                + zeros(size as nat));
        }
        Ok(())
    }

    fn more(&mut self, size: usize) -> (r: Result<(), Error>) {
        if self.inner.len() - self.used < size {
            return Err(Error::SmallBuffer);
        }
        let from: usize = self.used;
        self.length = self.length + size;
        self.used = from + size;
        self.zero(from, size);
        proof {
            assert(self.inner@.take(self.used as int) =~= old(self).inner@.take(from as int)
                + zeros(size as nat));
        }
        Ok(())
    }

    fn clear(&mut self)
        ensures
            final(self).inner_bytes() == old(self).inner_bytes(),
    {
        let ghost len = self.inner.len();
        self.offset = 0;
        self.length = 0;
        self.used = 0;
    }

    fn used(&self) -> (r: usize) {
        self.used
    }

    fn offset(&self) -> (r: usize) {
        self.offset
    }

    fn length(&self) -> (r: usize) {
        self.length
    }

    fn data(&self) -> (r: &[u8]) {
        vstd::slice::slice_subrange(self.inner, self.offset, self.offset + self.length)
    }

    fn data_mut(&mut self) -> (r: &mut [u8]) {
        let offset: usize = self.offset;
        let length: usize = self.length;
        let (head, tail) = self.inner.split_at_mut(offset);
        let (window, rest) = tail.split_at_mut(length);
        proof {
            assert(final(head)@ == head@);
            assert(final(rest)@ == rest@);
            assert(old(self).inner@.take(offset as int) == head@);
            assert(old(self).inner@.skip(offset + length) =~= rest@);
        }
        window
    }
}

impl<'a> AsBytes for Buffer<'a> {
    open spec fn bytes(&self) -> Seq<u8> {
        if super::Buffer::wf(self) {
            super::Buffer::layer(self)
        } else {
            Seq::empty()
        }
    }

    proof fn lemma_bytes_len(&self) {
    }

    fn as_bytes(&self) -> (r: &[u8]) {
        if self.used <= self.inner.len() && self.offset <= self.used && self.length == self.used
            - self.offset {
            vstd::slice::slice_subrange(self.inner, self.offset, self.offset + self.length)
        } else {
            vstd::slice::slice_subrange(self.inner, 0, 0)
        }
    }
}

} // verus!
