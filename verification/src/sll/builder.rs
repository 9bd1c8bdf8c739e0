use vstd::prelude::*;
use crate::buffer::{self, zeros, Buffer};
use crate::builder::{
    append, claim, claimed, grown, put_u16, put_u64, rewritten, run, Builder as Build,
    Finalization, Fixup,
};
use crate::bytes::{AsBytes, AsBytesMut};
use crate::endian::{be_bytes_u16, be_bytes_u64, overwrite};
use crate::error::Error;
use crate::ether::Protocol;
use crate::ip;
use crate::packet::{AsPacket, AsPacketMut};
use crate::sll::PacketType;
use crate::sll::packet::{self, Packet};

verus! {

/// Linux cooked capture frame builder.
pub struct Builder<B: Buffer = buffer::Dynamic> {
    buffer: B,
    finalizer: Finalization,
    payload: bool,
}

impl<B: Buffer> Build<B> for Builder<B> {
    open spec fn wf(&self) -> bool {
        &&& self.buffer_of().wf()
        &&& self.buffer_of().layer_len() >= 16
        &&& self.buffer_of().layer_start() + self.buffer_of().layer_len()
            == self.buffer_of().claimed()
    }

    closed spec fn buffer_of(&self) -> B {
        self.buffer
    }

    closed spec fn finalizers(&self) -> Seq<Fixup> {
        self.finalizer@
    }

    open spec fn fresh_header() -> Option<Seq<u8>> {
        Some(zeros(16))
    }

    open spec fn closing(&self) -> Result<Seq<Fixup>, Error> {
        Ok(self.finalizers())
    }

    fn with(buffer: B) -> (r: Result<Self, Error>)
        ensures
            r is Ok ==> !r->Ok_0.has_payload(),
    {
        let mut buffer = buffer;
        let ghost before = buffer;
        match claim(&mut buffer, 16) {
            Ok(_) => {},
            Err(e) => {
                return Err(e);
            },
        }
        Ok(Builder { buffer, finalizer: Finalization::default(), payload: false })
    }

    fn finalizer(&mut self) -> (r: &mut Finalization)
        ensures
            (*final(self)).has_payload() == old(self).has_payload(),
    {
        &mut self.finalizer
    }

    fn build(self) -> (r: Result<B::Inner, Error>) {
        let mut this = self;
        let Builder { buffer, finalizer, payload: _ } = this;
        let ghost queued = finalizer@;
        let mut inner = buffer.into_inner();
        let ghost backing = inner.bytes();
        let done = finalizer.finalize(inner.as_bytes_mut());
        proof {
            assert(self.closing() == Ok::<Seq<Fixup>, Error>(queued));
            assert(backing == self.buffer_of().backing());
            assert((inner.bytes(), done) == run(queued, backing));
        }
        match done {
            Ok(_) => Ok(inner),
            Err(e) => Err(e),
        }
    }
}

impl Default for Builder<buffer::Dynamic> {
    fn default() -> (r: Self)
        ensures
            r.wf(),
            r.finalizers() == Seq::<Fixup>::empty(),
            !r.has_payload(),
            r.buffer_of().layer_start() == 0,
            r.buffer_of().backing() == zeros(16),
    {
        let made = <Self as Build<buffer::Dynamic>>::with(buffer::Dynamic::new());
        proof {
            let after = made->Ok_0.buffer_of();
            after.lemma_wf();
            assert(after.backing().take(after.claimed() as int) =~= after.backing());
        }
        made.unwrap()
    }
}

impl<B: Buffer> Builder<B> {
    /// Whether the payload was given already.
    pub closed spec fn has_payload(&self) -> bool {
        self.payload
    }

    /// The work that the builder leaves for the finished packet.
    pub open spec fn fixup(&self) -> Fixup {
        Fixup::SllProtocol {
            offset: self.buffer_of().layer_start() as usize,
            length: self.buffer_of().layer_len() as usize,
        }
    }

    /// The builder is as `before`, but for its header, which is now `layer`.
    pub open spec fn follows(&self, before: Self, layer: Seq<u8>) -> bool {
        &&& self.wf()
        &&& rewritten(before.buffer_of(), self.buffer_of(), layer)
        &&& self.finalizers() == before.finalizers()
        &&& self.has_payload() == before.has_payload()
    }

    /// Kind of capture: who sent the frame to whom.
    pub fn packet_type(self, value: PacketType) -> (r: Result<Self, Error>)
        requires
            self.wf(),
        ensures
            match r {
                Ok(b) => b.follows(
                    self,
                    overwrite(self.buffer_of().layer(), 0, be_bytes_u16(value.number())),
                ),
                Err(_) => false,
            },
    {
        let mut this = self;
        put_u16(&mut this.buffer, 0, value.into_number());
        Ok(this)
    }

    /// Kind of link layer that the address is of.
    pub fn ll_address_type(self, value: u16) -> (r: Result<Self, Error>)
        requires
            self.wf(),
        ensures
            match r {
                Ok(b) => b.follows(
                    self,
                    overwrite(self.buffer_of().layer(), 2, be_bytes_u16(value)),
                ),
                Err(_) => false,
            },
    {
        let mut this = self;
        put_u16(&mut this.buffer, 2, value);
        Ok(this)
    }

    /// Length of the link layer address.
    pub fn ll_address_length(self, value: u16) -> (r: Result<Self, Error>)
        requires
            self.wf(),
        ensures
            match r {
                Ok(b) => b.follows(
                    self,
                    overwrite(self.buffer_of().layer(), 4, be_bytes_u16(value)),
                ),
                Err(_) => false,
            },
    {
        let mut this = self;
        put_u16(&mut this.buffer, 4, value);
        Ok(this)
    }

    /// The eight bytes that hold the link layer address.
    pub fn unused(self, value: u64) -> (r: Result<Self, Error>)
        requires
            self.wf(),
        ensures
            match r {
                Ok(b) => b.follows(
                    self,
                    overwrite(self.buffer_of().layer(), 6, be_bytes_u64(value)),
                ),
                Err(_) => false,
            },
    {
        let mut this = self;
        put_u64(&mut this.buffer, 6, value);
        Ok(this)
    }

    /// Protocol of the inner packet.
    pub fn protocol(self, value: Protocol) -> (r: Result<Self, Error>)
        requires
            self.wf(),
        ensures
            match r {
                Ok(b) => b.follows(
                    self,
                    overwrite(self.buffer_of().layer(), 14, be_bytes_u16(value.number())),
                ),
                Err(_) => false,
            },
    {
        let mut this = self;
        put_u16(&mut this.buffer, 14, value.into_number());
        Ok(this)
    }

    /// Payload for the packet. It can be given once.
    pub fn payload(self, value: &[u8]) -> (r: Result<Self, Error>)
        requires
            self.wf(),
        ensures
            match r {
                Ok(b) => {
                    &&& !self.has_payload()
                    &&& b.wf()
                    &&& grown(self.buffer_of(), b.buffer_of(), value@)
                    &&& b.has_payload()
                    &&& b.finalizers() == self.finalizers()
                },
                Err(e) => if self.has_payload() {
                    e == Error::AlreadyDefined
                } else {
                    e == Error::SmallBuffer && self.buffer_of().claimed() + value@.len()
                        > self.buffer_of().limit()
                },
            },
    {
        if self.payload {
            return Err(Error::AlreadyDefined);
        }
        let mut this = self;
        this.payload = true;
        match append(&mut this.buffer, value) {
            Ok(_) => {},
            Err(e) => {
                return Err(e);
            },
        }
        Ok(this)
    }

    /// Queue the work that the finished packet needs.
    fn prepare(&mut self)
        requires
            old(self).wf(),
        ensures
            final(self).wf(),
            final(self).buffer_of() == old(self).buffer_of(),
            final(self).finalizers() == old(self).finalizers().push(old(self).fixup()),
            final(self).has_payload() == old(self).has_payload(),
    {
        let offset: usize = self.buffer.offset();
        let length: usize = self.buffer.length();
        self.finalizer.add(Fixup::SllProtocol { offset, length });
    }

    /// Build an IP packet inside the SLL frame.
    pub fn ip(self) -> (r: Result<ip::Builder<B>, Error>)
        requires
            self.wf(),
        ensures
            match r {
                Ok(b) => {
                    &&& !self.has_payload()
                    &&& b.wf()
                    &&& b.finalizers() == self.finalizers().push(self.fixup())
                    &&& b.buffer_of() == self.buffer_of()
                },
                Err(e) => e == Error::AlreadyDefined && self.has_payload(),
            },
    {
        if self.payload {
            return Err(Error::AlreadyDefined);
        }
        let mut this = self;
        let ghost mid = this.buffer;
        this.prepare();
        let Builder { buffer, finalizer, payload: _ } = this;
        let made: Result<ip::Builder<B>, Error> = Build::with(buffer);
        let mut inner = match made {
            Ok(inner) => inner,
            Err(e) => {
                return Err(e);
            },
        };
        inner.finalizer().extend(finalizer);
        proof {
            assert(inner.finalizers() =~= self.finalizers().push(self.fixup()));
        }
        Ok(inner)
    }
}

impl<'a, B: Buffer> AsPacket<'a, Packet<&'a [u8]>> for Builder<B> {
    open spec fn readable(&self) -> bool {
        self.wf()
    }

    open spec fn packet_bytes(&self) -> Seq<u8> {
        self.buffer_of().layer()
    }

    open spec fn parsed(bytes: Seq<u8>) -> Result<(), Error> {
        crate::sll::packet::check(bytes)
    }

    fn as_packet(&'a self) -> (r: Result<Packet<&'a [u8]>, Error>) {
        Packet::new(self.buffer.data())
    }
}

impl<'a, B: Buffer> AsPacketMut<'a, Packet<&'a mut [u8]>> for Builder<B> {
    open spec fn writable(&self) -> bool {
        self.wf()
    }

    open spec fn packet_bytes_mut(&self) -> Seq<u8> {
        self.buffer_of().layer()
    }

    open spec fn parsed_mut(bytes: Seq<u8>) -> Result<(), Error> {
        crate::sll::packet::check(bytes)
    }

    fn as_packet_mut(&'a mut self) -> (r: Result<Packet<&'a mut [u8]>, Error>) {
        Packet::new(self.buffer.data_mut())
    }
}

} // verus!
