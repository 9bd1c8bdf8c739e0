use vstd::prelude::*;
use crate::buffer::{self, zeros, Buffer};
use crate::builder::{
    claim, claimed, put, put_u16, rewritten, run, Builder as Build, Finalization, Fixup,
};
use crate::bytes::{AsBytes, AsBytesMut};
use crate::endian::{be_bytes_u16, overwrite};
use crate::error::Error;
use crate::icmp::Kind;
use crate::icmp::information::packet::{self, Packet};
use crate::packet::{AsPacket, AsPacketMut};

verus! {

/// Information Request/Reply packet builder.
pub struct Builder<B: Buffer = buffer::Dynamic> {
    buffer: B,
    finalizer: Finalization,
    kind: bool,
}

impl<B: Buffer> Build<B> for Builder<B> {
    open spec fn wf(&self) -> bool {
        &&& self.buffer_of().wf()
        &&& self.buffer_of().layer_len() >= 8
        &&& self.buffer_of().layer_start() + self.buffer_of().layer_len()
            == self.buffer_of().claimed()
    }

    closed spec fn buffer_of(&self) -> B {
        self.buffer
    }

    closed spec fn finalizers(&self) -> Seq<Fixup> {
        self.finalizer@
    }

    open spec fn fresh_header() -> Option<Seq<u8>> {
        Some(zeros(8))
    }

    open spec fn closing(&self) -> Result<Seq<Fixup>, Error> {
        if !self.has_kind() {
            Err(Error::InvalidPacket)
        } else {
            Ok(self.finalizers().push(self.fixup()))
        }
    }

    fn with(buffer: B) -> (r: Result<Self, Error>)
        ensures
            r is Ok ==> !r->Ok_0.has_kind(),
    {
        let mut buffer = buffer;
        let ghost before = buffer;
        match claim(&mut buffer, 8) {
            Ok(_) => {},
            Err(e) => {
                return Err(e);
            },
        }
        Ok(Builder { buffer, finalizer: Finalization::default(), kind: false })
    }

    fn finalizer(&mut self) -> (r: &mut Finalization)
        ensures
            (*final(self)).has_kind() == old(self).has_kind(),
    {
        &mut self.finalizer
    }

    fn build(self) -> (r: Result<B::Inner, Error>) {
        let mut this = self;
        if !this.kind {
            return Err(Error::InvalidPacket);
        }
        this.prepare();
        let Builder { buffer, finalizer, kind: _ } = this;
        let ghost queued = finalizer@;
        let mut inner = buffer.into_inner();
        let ghost backing = inner.bytes();
        let done = finalizer.finalize(inner.as_bytes_mut());
        proof {
            assert(self.closing() == Ok::<Seq<Fixup>, Error>(queued));
            assert(backing == self.buffer_of().backing());
            assert((inner.bytes(), done) == run(queued, backing));
        }
        match done {
            Ok(_) => Ok(inner),
            Err(e) => Err(e),
        }
    }
}

impl Default for Builder<buffer::Dynamic> {
    fn default() -> (r: Self)
        ensures
            r.wf(),
            r.finalizers() == Seq::<Fixup>::empty(),
            !r.has_kind(),
            r.buffer_of().layer_start() == 0,
            r.buffer_of().backing() == zeros(8),
    {
        let made = <Self as Build<buffer::Dynamic>>::with(buffer::Dynamic::new());
        proof {
            let after = made->Ok_0.buffer_of();
            after.lemma_wf();
            assert(after.backing().take(after.claimed() as int) =~= after.backing());
        }
        made.unwrap()
    }
}

impl<B: Buffer> Builder<B> {
    /// Whether the kind of message was chosen already.
    pub closed spec fn has_kind(&self) -> bool {
        self.kind
    }

    /// The work that the builder leaves for the finished packet.
    pub open spec fn fixup(&self) -> Fixup {
        Fixup::Message {
            offset: self.buffer_of().layer_start() as usize,
            length: self.buffer_of().layer_len() as usize,
        }
    }

    /// The builder is as `before`, but for its header, which is now `layer`.
    pub open spec fn follows(&self, before: Self, layer: Seq<u8>) -> bool {
        &&& self.wf()
        &&& rewritten(before.buffer_of(), self.buffer_of(), layer)
        &&& self.finalizers() == before.finalizers()
        &&& self.has_kind() == before.has_kind()
    }

    /// Make it a request.
    pub fn request(self) -> (r: Result<Self, Error>)
        requires
            self.wf(),
        ensures
            match r {
                Ok(b) => {
                    &&& b.wf()
                    &&& rewritten(
                        self.buffer_of(),
                        b.buffer_of(),
                        self.buffer_of().layer().update(0, Kind::InformationRequest.number()),
                    )
                    &&& b.has_kind()
                    &&& b.finalizers() == self.finalizers()
                },
                Err(_) => false,
            },
    {
        let mut this = self;
        this.kind = true;
        put(&mut this.buffer, 0, Kind::InformationRequest.into_number());
        Ok(this)
    }

    /// Make it a reply.
    pub fn reply(self) -> (r: Result<Self, Error>)
        requires
            self.wf(),
        ensures
            match r {
                Ok(b) => {
                    &&& b.wf()
                    &&& rewritten(
                        self.buffer_of(),
                        b.buffer_of(),
                        self.buffer_of().layer().update(0, Kind::InformationReply.number()),
                    )
                    &&& b.has_kind()
                    &&& b.finalizers() == self.finalizers()
                },
                Err(_) => false,
            },
    {
        let mut this = self;
        this.kind = true;
        put(&mut this.buffer, 0, Kind::InformationReply.into_number());
        Ok(this)
    }

    /// Packet identifier.
    pub fn identifier(self, value: u16) -> (r: Result<Self, Error>)
        requires
            self.wf(),
        ensures
            match r {
                Ok(b) => b.follows(
                    self,
                    overwrite(self.buffer_of().layer(), 4, be_bytes_u16(value)),
                ),
                Err(_) => false,
            },
    {
        let mut this = self;
        put_u16(&mut this.buffer, 4, value);
        Ok(this)
    }

    /// Packet sequence.
    pub fn sequence(self, value: u16) -> (r: Result<Self, Error>)
        requires
            self.wf(),
        ensures
            match r {
                Ok(b) => b.follows(
                    self,
                    overwrite(self.buffer_of().layer(), 6, be_bytes_u16(value)),
                ),
                Err(_) => false,
            },
    {
        let mut this = self;
        put_u16(&mut this.buffer, 6, value);
        Ok(this)
    }

    /// Queue the work that the finished packet needs.
    fn prepare(&mut self)
        requires
            old(self).wf(),
        ensures
            final(self).wf(),
            final(self).buffer_of() == old(self).buffer_of(),
            final(self).finalizers() == old(self).finalizers().push(old(self).fixup()),
            final(self).has_kind() == old(self).has_kind(),
    {
        let offset: usize = self.buffer.offset();
        let length: usize = self.buffer.length();
        self.finalizer.add(Fixup::Message { offset, length });
    }
}

impl<'a, B: Buffer> AsPacket<'a, Packet<&'a [u8]>> for Builder<B> {
    open spec fn readable(&self) -> bool {
        self.wf()
    }

    open spec fn packet_bytes(&self) -> Seq<u8> {
        self.buffer_of().layer()
    }

    open spec fn parsed(bytes: Seq<u8>) -> Result<(), Error> {
        crate::icmp::information::packet::check(bytes)
    }

    fn as_packet(&'a self) -> (r: Result<Packet<&'a [u8]>, Error>) {
        Packet::new(self.buffer.data())
    }
}

impl<'a, B: Buffer> AsPacketMut<'a, Packet<&'a mut [u8]>> for Builder<B> {
    open spec fn writable(&self) -> bool {
        self.wf()
    }

    open spec fn packet_bytes_mut(&self) -> Seq<u8> {
        self.buffer_of().layer()
    }

    open spec fn parsed_mut(bytes: Seq<u8>) -> Result<(), Error> {
        crate::icmp::information::packet::check(bytes)
    }

    fn as_packet_mut(&'a mut self) -> (r: Result<Packet<&'a mut [u8]>, Error>) {
        Packet::new(self.buffer.data_mut())
    }
}

} // verus!
