use vstd::prelude::*;
use crate::buffer::{self, zeros, Buffer};
use crate::builder::{claimed, Builder as Build, Finalization, Fixup};
use crate::bytes::{AsBytes, AsBytesMut};
use crate::error::Error;
use crate::ip::{v4, v6};

verus! {

/// Generic IP packet builder.
pub struct Builder<B: Buffer = buffer::Dynamic> {
    buffer: B,
    finalizer: Finalization,
}

impl<B: Buffer> Build<B> for Builder<B> {
    open spec fn wf(&self) -> bool {
        self.buffer_of().wf()
    }

    closed spec fn buffer_of(&self) -> B {
        self.buffer
    }

    closed spec fn finalizers(&self) -> Seq<Fixup> {
        self.finalizer@
    }

    open spec fn fresh_header() -> Option<Seq<u8>> {
        None
    }

    open spec fn closing(&self) -> Result<Seq<Fixup>, Error> {
        Err(Error::InvalidPacket)
    }

    fn with(buffer: B) -> (r: Result<Self, Error>)
    {
        Ok(Builder { buffer, finalizer: Finalization::default() })
    }

    fn finalizer(&mut self) -> (r: &mut Finalization)
    {
        &mut self.finalizer
    }

    fn build(self) -> (r: Result<B::Inner, Error>) {
        Err(Error::InvalidPacket)
    }
}

impl Default for Builder<buffer::Dynamic> {
    fn default() -> (r: Self)
        ensures
            r.wf(),
            r.finalizers() == Seq::<Fixup>::empty(),
            r.buffer_of().backing() == Seq::<u8>::empty(),
    {
        let made = <Self as Build<buffer::Dynamic>>::with(buffer::Dynamic::new());
        proof {
            let after = made->Ok_0.buffer_of();
            after.lemma_wf();
            assert(after.backing().take(after.claimed() as int) =~= after.backing());
        }
        made.unwrap()
    }
}

impl<B: Buffer> Builder<B> {
    /// Create an IPv4 packet.
    pub fn v4(self) -> (r: Result<v4::Builder<B>, Error>)
        requires
            self.wf(),
        ensures
            match r {
                Ok(b) => {
                    &&& b.wf()
                    &&& b.finalizers() == self.finalizers()
                    &&& claimed(self.buffer_of(), b.buffer_of(), zeros(20).update(0, 0x45u8))
                    &&& !b.has_payload()
                },
                Err(e) => e == Error::SmallBuffer
                    && self.buffer_of().claimed() + 20 > self.buffer_of().limit(),
            },
    {
        let mut this = self;
        let ghost mid = this.buffer;
        let Builder { buffer, finalizer } = this;
        let made: Result<v4::Builder<B>, Error> = Build::with(buffer);
        let mut inner = match made {
            Ok(inner) => inner,
            Err(e) => {
                return Err(e);
            },
        };
        inner.finalizer().extend(finalizer);
        proof {
            assert(inner.finalizers() =~= self.finalizers());
        }
        Ok(inner)
    }

    /// Create an IPv6 packet.
    pub fn v6(self) -> (r: Result<v6::Builder<B>, Error>)
        requires
            self.wf(),
        ensures
            match r {
                Ok(b) => {
                    &&& b.wf()
                    &&& b.finalizers() == self.finalizers()
                    &&& claimed(self.buffer_of(), b.buffer_of(), zeros(40).update(0, 0x60u8))
                },
                Err(e) => e == Error::SmallBuffer
                    && self.buffer_of().claimed() + 40 > self.buffer_of().limit(),
            },
    {
        let mut this = self;
        let ghost mid = this.buffer;
        let Builder { buffer, finalizer } = this;
        let made: Result<v6::Builder<B>, Error> = Build::with(buffer);
        let mut inner = match made {
            Ok(inner) => inner,
            Err(e) => {
                return Err(e);
            },
        };
        inner.finalizer().extend(finalizer);
        proof {
            assert(inner.finalizers() =~= self.finalizers());
        }
        Ok(inner)
    }
}

} // verus!
