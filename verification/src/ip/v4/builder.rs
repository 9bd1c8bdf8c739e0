use vstd::prelude::*;
use crate::buffer::{self, zeros, Buffer};
use crate::builder::{
    append, claim, claimed, grown, lemma_claimed_rewritten, lemma_rewritten_claimed, put,
    put_bytes, put_u16, rewritten, run, stacked, Builder as Build, Endianness, Finalization, Fixup,
};
use crate::bytes::{AsBytes, AsBytesMut};
use crate::endian::{be_bytes_u16, overwrite};
use crate::error::Error;
use crate::ip::Protocol;
use crate::ip::v4::Flags;
use crate::ip::v4::packet::{self, Packet};
use crate::ip::v4::packet::{
    with_dscp, with_ecn, with_flags, with_offset, write_dscp, write_ecn, write_flags, write_offset,
};
use crate::packet::{AsPacket, AsPacketMut};
use crate::{icmp, tcp, udp};

verus! {

/// IPv4 packet builder.
pub struct Builder<B: Buffer = buffer::Dynamic> {
    buffer: B,
    finalizer: Finalization,
    options: bool,
    payload: bool,
}

impl<B: Buffer> Build<B> for Builder<B> {
    open spec fn wf(&self) -> bool {
        &&& self.buffer_of().wf()
        &&& self.buffer_of().layer_len() >= 20
        &&& self.buffer_of().layer_start() + self.buffer_of().layer_len()
            == self.buffer_of().claimed()
    }

    closed spec fn buffer_of(&self) -> B {
        self.buffer
    }

    closed spec fn finalizers(&self) -> Seq<Fixup> {
        self.finalizer@
    }

    open spec fn fresh_header() -> Option<Seq<u8>> {
        Some(zeros(20).update(0, 0x45u8))
    }

    open spec fn closing(&self) -> Result<Seq<Fixup>, Error> {
        Ok(self.finalizers().push(self.fixup()))
    }

    fn with(buffer: B) -> (r: Result<Self, Error>)
        ensures
            r is Ok ==> !r->Ok_0.has_options(),
            r is Ok ==> !r->Ok_0.has_payload(),
    {
        let mut buffer = buffer;
        let ghost before = buffer;
        match claim(&mut buffer, 20) {
            Ok(_) => {},
            Err(e) => {
                return Err(e);
            },
        }
        let ghost fresh0 = buffer;
        put(&mut buffer, 0, 0x45);
        proof {
            lemma_claimed_rewritten(before, fresh0, buffer, buffer.layer());
        }
        let ghost fresh1 = buffer;
        proof {
            assert(buffer.layer() =~= zeros(20).update(0, 0x45u8));
        }
        Ok(Builder { buffer, finalizer: Finalization::default(), options: false, payload: false })
    }

    fn finalizer(&mut self) -> (r: &mut Finalization)
        ensures
            (*final(self)).has_options() == old(self).has_options(),
            (*final(self)).has_payload() == old(self).has_payload(),
    {
        &mut self.finalizer
    }

    fn build(self) -> (r: Result<B::Inner, Error>) {
        let mut this = self;
        this.prepare();
        let Builder { buffer, finalizer, options: _, payload: _ } = this;
        let ghost queued = finalizer@;
        let mut inner = buffer.into_inner();
        let ghost backing = inner.bytes();
        let done = finalizer.finalize(inner.as_bytes_mut());
        proof {
            assert(self.closing() == Ok::<Seq<Fixup>, Error>(queued));
            assert(backing == self.buffer_of().backing());
            assert((inner.bytes(), done) == run(queued, backing));
        }
        match done {
            Ok(_) => Ok(inner),
            Err(e) => Err(e),
        }
    }
}

impl Default for Builder<buffer::Dynamic> {
    fn default() -> (r: Self)
        ensures
            r.wf(),
            r.finalizers() == Seq::<Fixup>::empty(),
            !r.has_options(),
            !r.has_payload(),
            r.buffer_of().layer_start() == 0,
            r.buffer_of().backing() == zeros(20).update(0, 0x45u8),
    {
        let made = <Self as Build<buffer::Dynamic>>::with(buffer::Dynamic::new());
        proof {
            let after = made->Ok_0.buffer_of();
            after.lemma_wf();
            assert(after.backing().take(after.claimed() as int) =~= after.backing());
        }
        made.unwrap()
    }
}

impl<B: Buffer> Builder<B> {
    /// Whether options were given already.
    pub closed spec fn has_options(&self) -> bool {
        self.options
    }

    /// Whether the payload was given already.
    pub closed spec fn has_payload(&self) -> bool {
        self.payload
    }

    /// The work that the builder leaves for the finished packet.
    pub open spec fn fixup(&self) -> Fixup {
        Fixup::Ipv4 {
            offset: self.buffer_of().layer_start() as usize,
            length: self.buffer_of().layer_len() as usize,
        }
    }

    /// The builder is as `before`, but for its header, which is now `layer`.
    pub open spec fn follows(&self, before: Self, layer: Seq<u8>) -> bool {
        &&& self.wf()
        &&& rewritten(before.buffer_of(), self.buffer_of(), layer)
        &&& self.finalizers() == before.finalizers()
        &&& self.has_options() == before.has_options()
        &&& self.has_payload() == before.has_payload()
    }

    /// Differentiated Services Code Point.
    pub fn dscp(self, value: u8) -> (r: Result<Self, Error>)
        requires
            self.wf(),
        ensures
            match r {
                Ok(b) => (value <= 0b11_1111)
                    && b.follows(self, with_dscp(self.buffer_of().layer(), value)),
                Err(e) => !(value <= 0b11_1111) && e == Error::InvalidValue,
            },
    {
        let mut this = self;
        let data = this.buffer.data_mut();
        match write_dscp(data, value) {
            Ok(_) => Ok(this),
            Err(e) => Err(e),
        }
    }

    /// Explicit Congestion Notification.
    pub fn ecn(self, value: u8) -> (r: Result<Self, Error>)
        requires
            self.wf(),
        ensures
            match r {
                Ok(b) => (value <= 0b11)
                    && b.follows(self, with_ecn(self.buffer_of().layer(), value)),
                Err(e) => !(value <= 0b11) && e == Error::InvalidValue,
            },
    {
        let mut this = self;
        let data = this.buffer.data_mut();
        match write_ecn(data, value) {
            Ok(_) => Ok(this),
            Err(e) => Err(e),
        }
    }

    /// Packet ID.
    pub fn id(self, value: u16) -> (r: Result<Self, Error>)
        requires
            self.wf(),
        ensures
            match r {
                Ok(b) => b.follows(
                    self,
                    overwrite(self.buffer_of().layer(), 4, be_bytes_u16(value)),
                ),
                Err(_) => false,
            },
    {
        let mut this = self;
        put_u16(&mut this.buffer, 4, value);
        Ok(this)
    }

    /// Packet flags.
    pub fn flags(self, value: Flags) -> (r: Result<Self, Error>)
        requires
            self.wf(),
        ensures
            match r {
                Ok(b) => b.follows(self, with_flags(self.buffer_of().layer(), value)),
                Err(_) => false,
            },
    {
        let mut this = self;
        let data = this.buffer.data_mut();
        let _ = write_flags(data, value);
        Ok(this)
    }

    /// Packet fragment offset.
    pub fn offset(self, value: u16) -> (r: Result<Self, Error>)
        requires
            self.wf(),
        ensures
            match r {
                Ok(b) => (value <= 0x1fff)
                    && b.follows(self, with_offset(self.buffer_of().layer(), value)),
                Err(e) => !(value <= 0x1fff) && e == Error::InvalidValue,
            },
    {
        let mut this = self;
        let data = this.buffer.data_mut();
        match write_offset(data, value) {
            Ok(_) => Ok(this),
            Err(e) => Err(e),
        }
    }

    /// Time to Live.
    pub fn ttl(self, value: u8) -> (r: Result<Self, Error>)
        requires
            self.wf(),
        ensures
            match r {
                Ok(b) => b.follows(self, self.buffer_of().layer().update(8, value)),
                Err(_) => false,
            },
    {
        let mut this = self;
        put(&mut this.buffer, 8, value);
        Ok(this)
    }

    /// Source address.
    pub fn source(self, value: [u8; 4]) -> (r: Result<Self, Error>)
        requires
            self.wf(),
        ensures
            match r {
                Ok(b) => b.follows(self, overwrite(self.buffer_of().layer(), 12, value@)),
                Err(_) => false,
            },
    {
        let mut this = self;
        put_bytes(&mut this.buffer, 12, value.as_slice());
        Ok(this)
    }

    /// Destination address.
    pub fn destination(self, value: [u8; 4]) -> (r: Result<Self, Error>)
        requires
            self.wf(),
        ensures
            match r {
                Ok(b) => b.follows(self, overwrite(self.buffer_of().layer(), 16, value@)),
                Err(_) => false,
            },
    {
        let mut this = self;
        put_bytes(&mut this.buffer, 16, value.as_slice());
        Ok(this)
    }

    /// Inner protocol.
    pub fn protocol(self, value: Protocol) -> (r: Result<Self, Error>)
        requires
            self.wf(),
        ensures
            match r {
                Ok(b) => b.follows(self, self.buffer_of().layer().update(9, value.number())),
                Err(_) => false,
            },
    {
        let mut this = self;
        put(&mut this.buffer, 9, value.into_number());
        Ok(this)
    }

    /// Payload for the packet. It can be given once.
    pub fn payload(self, value: &[u8]) -> (r: Result<Self, Error>)
        requires
            self.wf(),
        ensures
            match r {
                Ok(b) => {
                    &&& !self.has_payload()
                    &&& b.wf()
                    &&& grown(self.buffer_of(), b.buffer_of(), value@)
                    &&& b.has_payload()
                    &&& b.finalizers() == self.finalizers()
                    &&& b.has_options() == self.has_options()
                },
                Err(e) => if self.has_payload() {
                    e == Error::AlreadyDefined
                } else {
                    e == Error::SmallBuffer && self.buffer_of().claimed() + value@.len()
                        > self.buffer_of().limit()
                },
            },
    {
        if self.payload {
            return Err(Error::AlreadyDefined);
        }
        let mut this = self;
        this.payload = true;
        match append(&mut this.buffer, value) {
            Ok(_) => {},
            Err(e) => {
                return Err(e);
            },
        }
        Ok(this)
    }

    /// Queue the work that the finished packet needs.
    fn prepare(&mut self)
        requires
            old(self).wf(),
        ensures
            final(self).wf(),
            final(self).buffer_of() == old(self).buffer_of(),
            final(self).finalizers() == old(self).finalizers().push(old(self).fixup()),
            final(self).has_options() == old(self).has_options(),
            final(self).has_payload() == old(self).has_payload(),
    {
        let offset: usize = self.buffer.offset();
        let length: usize = self.buffer.length();
        self.finalizer.add(Fixup::Ipv4 { offset, length });
    }

    /// Build an ICMP packet.
    pub fn icmp(self) -> (r: Result<icmp::Builder<B>, Error>)
        requires
            self.wf(),
        ensures
            match r {
                Ok(b) => {
                    &&& !self.has_payload()
                    &&& b.wf()
                    &&& b.finalizers() == self.finalizers().push(self.fixup())
                    &&& rewritten(
                        self.buffer_of(),
                        b.buffer_of(),
                        self.buffer_of().layer().update(9, Protocol::Icmp.number()),
                    )
                },
                Err(e) => e == Error::AlreadyDefined && self.has_payload(),
            },
    {
        if self.payload {
            return Err(Error::AlreadyDefined);
        }
        let mut this = self;
        put(&mut this.buffer, 9, Protocol::Icmp.into_number());
        let ghost mid = this.buffer;
        this.prepare();
        let Builder { buffer, finalizer, options: _, payload: _ } = this;
        let made: Result<icmp::Builder<B>, Error> = Build::with(buffer);
        let mut inner = match made {
            Ok(inner) => inner,
            Err(e) => {
                return Err(e);
            },
        };
        inner.finalizer().extend(finalizer);
        proof {
            assert(inner.finalizers() =~= self.finalizers().push(self.fixup()));
        }
        Ok(inner)
    }

    /// Build a TCP packet.
    pub fn tcp(self) -> (r: Result<tcp::Builder<B>, Error>)
        requires
            self.wf(),
        ensures
            match r {
                Ok(b) => {
                    &&& !self.has_payload()
                    &&& b.wf()
                    &&& b.finalizers() == self.finalizers().push(self.fixup())
                    &&& stacked(
                        self.buffer_of(),
                        b.buffer_of(),
                        self.buffer_of().layer().update(9, Protocol::Tcp.number()),
                        zeros(20).update(12, 0x50u8),
                    )
                    &&& !b.has_payload()
                    &&& b.ip_of() == (
                        self.buffer_of().layer_start() as usize,
                        self.buffer_of().layer_len() as usize,
                    )
                    &&& b.payload_length_of() == 0
                },
                Err(e) => if self.has_payload() {
                    e == Error::AlreadyDefined
                } else {
                    e == Error::SmallBuffer
                        && self.buffer_of().claimed() + 20 > self.buffer_of().limit()
                },
            },
    {
        if self.payload {
            return Err(Error::AlreadyDefined);
        }
        let mut this = self;
        put(&mut this.buffer, 9, Protocol::Tcp.into_number());
        let ghost mid = this.buffer;
        this.prepare();
        let Builder { buffer, finalizer, options: _, payload: _ } = this;
        let made: Result<tcp::Builder<B>, Error> = Build::with(buffer);
        let mut inner = match made {
            Ok(inner) => inner,
            Err(e) => {
                return Err(e);
            },
        };
        inner.finalizer().extend(finalizer);
        proof {
            assert(inner.finalizers() =~= self.finalizers().push(self.fixup()));
            self.buffer_of().lemma_wf();
            lemma_rewritten_claimed(
                self.buffer_of(),
                mid,
                inner.buffer_of(),
                self.buffer_of().layer().update(9, Protocol::Tcp.number()),
                zeros(20).update(12, 0x50u8),
            );
        }
        Ok(inner)
    }

    /// Build a UDP packet.
    pub fn udp(self) -> (r: Result<udp::Builder<B>, Error>)
        requires
            self.wf(),
        ensures
            match r {
                Ok(b) => {
                    &&& !self.has_payload()
                    &&& b.wf()
                    &&& b.finalizers() == self.finalizers().push(self.fixup())
                    &&& stacked(
                        self.buffer_of(),
                        b.buffer_of(),
                        self.buffer_of().layer().update(9, Protocol::Udp.number()),
                        zeros(8),
                    )
                    &&& !b.has_payload()
                    &&& b.ip_of() == (
                        self.buffer_of().layer_start() as usize,
                        self.buffer_of().layer_len() as usize,
                    )
                    &&& b.endianness_of() == Endianness::BIG
                },
                Err(e) => if self.has_payload() {
                    e == Error::AlreadyDefined
                } else {
                    e == Error::SmallBuffer
                        && self.buffer_of().claimed() + 8 > self.buffer_of().limit()
                },
            },
    {
        if self.payload {
            return Err(Error::AlreadyDefined);
        }
        let mut this = self;
        put(&mut this.buffer, 9, Protocol::Udp.into_number());
        let ghost mid = this.buffer;
        this.prepare();
        let Builder { buffer, finalizer, options: _, payload: _ } = this;
        let made: Result<udp::Builder<B>, Error> = Build::with(buffer);
        let mut inner = match made {
            Ok(inner) => inner,
            Err(e) => {
                return Err(e);
            },
        };
        inner.finalizer().extend(finalizer);
        proof {
            assert(inner.finalizers() =~= self.finalizers().push(self.fixup()));
            self.buffer_of().lemma_wf();
            lemma_rewritten_claimed(
                self.buffer_of(),
                mid,
                inner.buffer_of(),
                self.buffer_of().layer().update(9, Protocol::Udp.number()),
                zeros(8),
            );
        }
        Ok(inner)
    }
}

impl<'a, B: Buffer> AsPacket<'a, Packet<&'a [u8]>> for Builder<B> {
    open spec fn readable(&self) -> bool {
        self.wf()
    }

    open spec fn packet_bytes(&self) -> Seq<u8> {
        self.buffer_of().layer()
    }

    open spec fn parsed(bytes: Seq<u8>) -> Result<(), Error> {
        crate::ip::v4::packet::check(bytes)
    }

    fn as_packet(&'a self) -> (r: Result<Packet<&'a [u8]>, Error>) {
        Packet::new(self.buffer.data())
    }
}

impl<'a, B: Buffer> AsPacketMut<'a, Packet<&'a mut [u8]>> for Builder<B> {
    open spec fn writable(&self) -> bool {
        self.wf()
    }

    open spec fn packet_bytes_mut(&self) -> Seq<u8> {
        self.buffer_of().layer()
    }

    open spec fn parsed_mut(bytes: Seq<u8>) -> Result<(), Error> {
        crate::ip::v4::packet::check(bytes)
    }

    fn as_packet_mut(&'a mut self) -> (r: Result<Packet<&'a mut [u8]>, Error>) {
        Packet::new(self.buffer.data_mut())
    }
}

} // verus!
