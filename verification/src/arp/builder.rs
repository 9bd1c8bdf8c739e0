use vstd::prelude::*;
use hwaddr::HwAddr;
use crate::arp::packet::{self, Packet};
use crate::buffer::{self, zeros, Buffer};
use crate::builder::{
    claim, claimed, put, put_bytes, put_u16, rewritten, run, Builder as Build, Finalization, Fixup,
};
use crate::bytes::{AsBytes, AsBytesMut};
use crate::endian::{be_bytes_u16, overwrite};
use crate::error::Error;
use crate::hw::{octets, octets_of};
use crate::packet::{AsPacket, AsPacketMut};

verus! {

/// ARP packet builder.
pub struct Builder<B: Buffer = buffer::Dynamic> {
    buffer: B,
    finalizer: Finalization,
    payload: bool,
}

impl<B: Buffer> Build<B> for Builder<B> {
    open spec fn wf(&self) -> bool {
        &&& self.buffer_of().wf()
        &&& self.buffer_of().layer_len() >= 28
        &&& self.buffer_of().layer_start() + self.buffer_of().layer_len()
            == self.buffer_of().claimed()
    }

    closed spec fn buffer_of(&self) -> B {
        self.buffer
    }

    closed spec fn finalizers(&self) -> Seq<Fixup> {
        self.finalizer@
    }

    open spec fn fresh_header() -> Option<Seq<u8>> {
        Some(zeros(28))
    }

    open spec fn closing(&self) -> Result<Seq<Fixup>, Error> {
        Ok(self.finalizers())
    }

    fn with(buffer: B) -> (r: Result<Self, Error>)
        ensures
            r is Ok ==> !r->Ok_0.has_payload(),
    {
        let mut buffer = buffer;
        let ghost before = buffer;
        match claim(&mut buffer, 28) {
            Ok(_) => {},
            Err(e) => {
                return Err(e);
            },
        }
        Ok(Builder { buffer, finalizer: Finalization::default(), payload: false })
    }

    fn finalizer(&mut self) -> (r: &mut Finalization)
        ensures
            (*final(self)).has_payload() == old(self).has_payload(),
    {
        &mut self.finalizer
    }

    fn build(self) -> (r: Result<B::Inner, Error>) {
        let mut this = self;
        let Builder { buffer, finalizer, payload: _ } = this;
        let ghost queued = finalizer@;
        let mut inner = buffer.into_inner();
        let ghost backing = inner.bytes();
        let done = finalizer.finalize(inner.as_bytes_mut());
        proof {
            assert(self.closing() == Ok::<Seq<Fixup>, Error>(queued));
            assert(backing == self.buffer_of().backing());
            assert((inner.bytes(), done) == run(queued, backing));
        }
        match done {
            Ok(_) => Ok(inner),
            Err(e) => Err(e),
        }
    }
}

impl Default for Builder<buffer::Dynamic> {
    fn default() -> (r: Self)
        ensures
            r.wf(),
            r.finalizers() == Seq::<Fixup>::empty(),
            !r.has_payload(),
            r.buffer_of().layer_start() == 0,
            r.buffer_of().backing() == zeros(28),
    {
        let made = <Self as Build<buffer::Dynamic>>::with(buffer::Dynamic::new());
        proof {
            let after = made->Ok_0.buffer_of();
            after.lemma_wf();
            assert(after.backing().take(after.claimed() as int) =~= after.backing());
        }
        made.unwrap()
    }
}

impl<B: Buffer> Builder<B> {
    /// Whether the payload was given already.
    pub closed spec fn has_payload(&self) -> bool {
        self.payload
    }

    /// The builder is as `before`, but for its header, which is now `layer`.
    pub open spec fn follows(&self, before: Self, layer: Seq<u8>) -> bool {
        &&& self.wf()
        &&& rewritten(before.buffer_of(), self.buffer_of(), layer)
        &&& self.finalizers() == before.finalizers()
        &&& self.has_payload() == before.has_payload()
    }

    /// Kind of link layer that the addresses are of.
    pub fn hardware_type(self, value: u16) -> (r: Result<Self, Error>)
        requires
            self.wf(),
        ensures
            match r {
                Ok(b) => b.follows(
                    self,
                    overwrite(self.buffer_of().layer(), 0, be_bytes_u16(value)),
                ),
                Err(_) => false,
            },
    {
        let mut this = self;
        put_u16(&mut this.buffer, 0, value);
        Ok(this)
    }

    /// Kind of network protocol that the addresses are of.
    pub fn protocol_type(self, value: u16) -> (r: Result<Self, Error>)
        requires
            self.wf(),
        ensures
            match r {
                Ok(b) => b.follows(
                    self,
                    overwrite(self.buffer_of().layer(), 2, be_bytes_u16(value)),
                ),
                Err(_) => false,
            },
    {
        let mut this = self;
        put_u16(&mut this.buffer, 2, value);
        Ok(this)
    }

    /// Length of a hardware address.
    pub fn hardware_address_length(self, value: u8) -> (r: Result<Self, Error>)
        requires
            self.wf(),
        ensures
            match r {
                Ok(b) => b.follows(self, self.buffer_of().layer().update(4, value)),
                Err(_) => false,
            },
    {
        let mut this = self;
        put(&mut this.buffer, 4, value);
        Ok(this)
    }

    /// Length of a protocol address.
    pub fn protocol_address_length(self, value: u8) -> (r: Result<Self, Error>)
        requires
            self.wf(),
        ensures
            match r {
                Ok(b) => b.follows(self, self.buffer_of().layer().update(5, value)),
                Err(_) => false,
            },
    {
        let mut this = self;
        put(&mut this.buffer, 5, value);
        Ok(this)
    }

    /// What the sender is doing: asking or answering.
    pub fn operation(self, value: u16) -> (r: Result<Self, Error>)
        requires
            self.wf(),
        ensures
            match r {
                Ok(b) => b.follows(
                    self,
                    overwrite(self.buffer_of().layer(), 6, be_bytes_u16(value)),
                ),
                Err(_) => false,
            },
    {
        let mut this = self;
        put_u16(&mut this.buffer, 6, value);
        Ok(this)
    }

    /// Hardware address of the sender.
    pub fn sender_hardware_address(self, value: HwAddr) -> (r: Result<Self, Error>)
        requires
            self.wf(),
        ensures
            match r {
                Ok(b) => b.follows(self, overwrite(self.buffer_of().layer(), 8, octets_of(value))),
                Err(_) => false,
            },
    {
        let mut this = self;
        put_bytes(&mut this.buffer, 8, octets(&value).as_slice());
        Ok(this)
    }

    /// Protocol address of the sender.
    pub fn sender_protocol_address(self, value: [u8; 4]) -> (r: Result<Self, Error>)
        requires
            self.wf(),
        ensures
            match r {
                Ok(b) => b.follows(self, overwrite(self.buffer_of().layer(), 14, value@)),
                Err(_) => false,
            },
    {
        let mut this = self;
        put_bytes(&mut this.buffer, 14, value.as_slice());
        Ok(this)
    }

    /// Hardware address of the target.
    pub fn target_hardware_address(self, value: HwAddr) -> (r: Result<Self, Error>)
        requires
            self.wf(),
        ensures
            match r {
                Ok(b) => b.follows(self, overwrite(self.buffer_of().layer(), 18, octets_of(value))),
                Err(_) => false,
            },
    {
        let mut this = self;
        put_bytes(&mut this.buffer, 18, octets(&value).as_slice());
        Ok(this)
    }

    /// Protocol address of the target.
    pub fn target_protocol_address(self, value: [u8; 4]) -> (r: Result<Self, Error>)
        requires
            self.wf(),
        ensures
            match r {
                Ok(b) => b.follows(self, overwrite(self.buffer_of().layer(), 24, value@)),
                Err(_) => false,
            },
    {
        let mut this = self;
        put_bytes(&mut this.buffer, 24, value.as_slice());
        Ok(this)
    }
}

impl<'a, B: Buffer> AsPacket<'a, Packet<&'a [u8]>> for Builder<B> {
    open spec fn readable(&self) -> bool {
        self.wf()
    }

    open spec fn packet_bytes(&self) -> Seq<u8> {
        self.buffer_of().layer()
    }

    open spec fn parsed(bytes: Seq<u8>) -> Result<(), Error> {
        crate::arp::packet::check(bytes)
    }

    fn as_packet(&'a self) -> (r: Result<Packet<&'a [u8]>, Error>) {
        Packet::new(self.buffer.data())
    }
}

impl<'a, B: Buffer> AsPacketMut<'a, Packet<&'a mut [u8]>> for Builder<B> {
    open spec fn writable(&self) -> bool {
        self.wf()
    }

    open spec fn packet_bytes_mut(&self) -> Seq<u8> {
        self.buffer_of().layer()
    }

    open spec fn parsed_mut(bytes: Seq<u8>) -> Result<(), Error> {
        crate::arp::packet::check(bytes)
    }

    fn as_packet_mut(&'a mut self) -> (r: Result<Packet<&'a mut [u8]>, Error>) {
        Packet::new(self.buffer.data_mut())
    }
}

} // verus!
