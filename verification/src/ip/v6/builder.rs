use vstd::prelude::*;
use crate::buffer::{self, zeros, Buffer};
use crate::builder::{
    claim, claimed, lemma_claimed_rewritten, put, put_bytes, rewritten, run, Builder as Build,
    Finalization, Fixup,
};
use crate::bytes::{AsBytes, AsBytesMut};
use crate::endian::overwrite;
use crate::error::Error;

verus! {

/// IPv6 packet builder.
pub struct Builder<B: Buffer = buffer::Dynamic> {
    buffer: B,
    finalizer: Finalization,
}

impl<B: Buffer> Build<B> for Builder<B> {
    open spec fn wf(&self) -> bool {
        &&& self.buffer_of().wf()
        &&& self.buffer_of().layer_len() >= 40
        &&& self.buffer_of().layer_start() + self.buffer_of().layer_len()
            == self.buffer_of().claimed()
    }

    closed spec fn buffer_of(&self) -> B {
        self.buffer
    }

    closed spec fn finalizers(&self) -> Seq<Fixup> {
        self.finalizer@
    }

    open spec fn fresh_header() -> Option<Seq<u8>> {
        Some(zeros(40).update(0, 0x60u8))
    }

    open spec fn closing(&self) -> Result<Seq<Fixup>, Error> {
        Ok(self.finalizers())
    }

    fn with(buffer: B) -> (r: Result<Self, Error>)
    {
        let mut buffer = buffer;
        let ghost before = buffer;
        match claim(&mut buffer, 40) {
            Ok(_) => {},
            Err(e) => {
                return Err(e);
            },
        }
        let ghost fresh0 = buffer;
        put(&mut buffer, 0, 0x60);
        proof {
            lemma_claimed_rewritten(before, fresh0, buffer, buffer.layer());
        }
        let ghost fresh1 = buffer;
        proof {
            assert(buffer.layer() =~= zeros(40).update(0, 0x60u8));
        }
        Ok(Builder { buffer, finalizer: Finalization::default() })
    }

    fn finalizer(&mut self) -> (r: &mut Finalization)
    {
        &mut self.finalizer
    }

    fn build(self) -> (r: Result<B::Inner, Error>) {
        let mut this = self;
        let Builder { buffer, finalizer } = this;
        let ghost queued = finalizer@;
        let mut inner = buffer.into_inner();
        let ghost backing = inner.bytes();
        let done = finalizer.finalize(inner.as_bytes_mut());
        proof {
            assert(self.closing() == Ok::<Seq<Fixup>, Error>(queued));
            assert(backing == self.buffer_of().backing());
            assert((inner.bytes(), done) == run(queued, backing));
        }
        match done {
            Ok(_) => Ok(inner),
            Err(e) => Err(e),
        }
    }
}

impl Default for Builder<buffer::Dynamic> {
    fn default() -> (r: Self)
        ensures
            r.wf(),
            r.finalizers() == Seq::<Fixup>::empty(),
            r.buffer_of().layer_start() == 0,
            r.buffer_of().backing() == zeros(40).update(0, 0x60u8),
    {
        let made = <Self as Build<buffer::Dynamic>>::with(buffer::Dynamic::new());
        proof {
            let after = made->Ok_0.buffer_of();
            after.lemma_wf();
            assert(after.backing().take(after.claimed() as int) =~= after.backing());
        }
        made.unwrap()
    }
}

impl<B: Buffer> Builder<B> {
    /// The builder is as `before`, but for its header, which is now `layer`.
    pub open spec fn follows(&self, before: Self, layer: Seq<u8>) -> bool {
        &&& self.wf()
        &&& rewritten(before.buffer_of(), self.buffer_of(), layer)
        &&& self.finalizers() == before.finalizers()
    }

    /// Source address.
    pub fn source(self, value: [u8; 16]) -> (r: Result<Self, Error>)
        requires
            self.wf(),
        ensures
            match r {
                Ok(b) => b.follows(self, overwrite(self.buffer_of().layer(), 8, value@)),
                Err(_) => false,
            },
    {
        let mut this = self;
        put_bytes(&mut this.buffer, 8, value.as_slice());
        Ok(this)
    }

    /// Destination address.
    pub fn destination(self, value: [u8; 16]) -> (r: Result<Self, Error>)
        requires
            self.wf(),
        ensures
            match r {
                Ok(b) => b.follows(self, overwrite(self.buffer_of().layer(), 24, value@)),
                Err(_) => false,
            },
    {
        let mut this = self;
        put_bytes(&mut this.buffer, 24, value.as_slice());
        Ok(this)
    }
}

} // verus!
