use vstd::prelude::*;
use crate::buffer::{self, zeros, Buffer};
use crate::builder::{
    append, claim, claimed, grown, lemma_claimed_rewritten, put, put_u16, put_u32, rewritten, run,
    Builder as Build, Finalization, Fixup,
};
use crate::bytes::{AsBytes, AsBytesMut};
use crate::endian::{be_bytes_u16, be_bytes_u32, overwrite};
use crate::error::Error;
use crate::packet::{AsPacket, AsPacketMut};
use crate::tcp::Flags;
use crate::tcp::packet::with_flags;
use crate::tcp::packet::{self, Packet};

verus! {

/// TCP packet builder.
pub struct Builder<B: Buffer = buffer::Dynamic> {
    buffer: B,
    finalizer: Finalization,
    ip: (usize, usize),
    options: bool,
    payload: bool,
    payload_length: usize,
}

impl<B: Buffer> Build<B> for Builder<B> {
    open spec fn wf(&self) -> bool {
        &&& self.buffer_of().wf()
        &&& self.buffer_of().layer_len() >= 20
        &&& self.buffer_of().layer_start() + self.buffer_of().layer_len()
            == self.buffer_of().claimed()
    }

    closed spec fn buffer_of(&self) -> B {
        self.buffer
    }

    closed spec fn finalizers(&self) -> Seq<Fixup> {
        self.finalizer@
    }

    open spec fn fresh_header() -> Option<Seq<u8>> {
        Some(zeros(20).update(12, 0x50u8))
    }

    open spec fn closing(&self) -> Result<Seq<Fixup>, Error> {
        Ok(self.finalizers().push(self.fixup()))
    }

    fn with(buffer: B) -> (r: Result<Self, Error>)
        ensures
            r is Ok ==> !r->Ok_0.has_options(),
            r is Ok ==> !r->Ok_0.has_payload(),
            r is Ok ==> r->Ok_0.payload_length_of() == 0,
            r is Ok ==> r->Ok_0.ip_of()
                == (buffer.layer_start() as usize, buffer.layer_len() as usize),
    {
        let mut buffer = buffer;
        let ghost before = buffer;
        let ip: (usize, usize) = (buffer.offset(), buffer.length());
        match claim(&mut buffer, 20) {
            Ok(_) => {},
            Err(e) => {
                return Err(e);
            },
        }
        let ghost fresh0 = buffer;
        put(&mut buffer, 12, 0x50);
        proof {
            lemma_claimed_rewritten(before, fresh0, buffer, buffer.layer());
        }
        let ghost fresh1 = buffer;
        proof {
            assert(buffer.layer() =~= zeros(20).update(12, 0x50u8));
        }
        Ok(
            Builder {
                buffer,
                finalizer: Finalization::default(),
                ip,
                options: false,
                payload: false,
                payload_length: 0,
            },
        )
    }

    fn finalizer(&mut self) -> (r: &mut Finalization)
        ensures
            (*final(self)).has_options() == old(self).has_options(),
            (*final(self)).has_payload() == old(self).has_payload(),
            (*final(self)).payload_length_of() == old(self).payload_length_of(),
            (*final(self)).ip_of() == old(self).ip_of(),
    {
        &mut self.finalizer
    }

    fn build(self) -> (r: Result<B::Inner, Error>) {
        let mut this = self;
        this.prepare();
        let Builder { buffer, finalizer, ip: _, options: _, payload: _, payload_length: _ } = this;
        let ghost queued = finalizer@;
        let mut inner = buffer.into_inner();
        let ghost backing = inner.bytes();
        let done = finalizer.finalize(inner.as_bytes_mut());
        proof {
            assert(self.closing() == Ok::<Seq<Fixup>, Error>(queued));
            assert(backing == self.buffer_of().backing());
            assert((inner.bytes(), done) == run(queued, backing));
        }
        match done {
            Ok(_) => Ok(inner),
            Err(e) => Err(e),
        }
    }
}

impl Default for Builder<buffer::Dynamic> {
    fn default() -> (r: Self)
        ensures
            r.wf(),
            r.finalizers() == Seq::<Fixup>::empty(),
            !r.has_options(),
            !r.has_payload(),
            r.payload_length_of() == 0,
            r.ip_of() == (0usize, 0usize),
            r.buffer_of().layer_start() == 0,
            r.buffer_of().backing() == zeros(20).update(12, 0x50u8),
    {
        let made = <Self as Build<buffer::Dynamic>>::with(buffer::Dynamic::new());
        proof {
            let after = made->Ok_0.buffer_of();
            after.lemma_wf();
            assert(after.backing().take(after.claimed() as int) =~= after.backing());
        }
        made.unwrap()
    }
}

impl<B: Buffer> Builder<B> {
    /// Whether options were given already.
    pub closed spec fn has_options(&self) -> bool {
        self.options
    }

    /// Whether the payload was given already.
    pub closed spec fn has_payload(&self) -> bool {
        self.payload
    }

    /// How many bytes of payload were given.
    pub closed spec fn payload_length_of(&self) -> usize {
        self.payload_length
    }

    /// Where the IP header lies that carries the packet: its offset from the
    /// beginning of the whole buffer, and its length.
    pub closed spec fn ip_of(&self) -> (usize, usize) {
        self.ip
    }

    /// The work that the builder leaves for the finished packet.
    pub open spec fn fixup(&self) -> Fixup {
        Fixup::Tcp {
            ip_offset: self.ip_of().0,
            ip_length: self.ip_of().1,
            length: self.buffer_of().layer_len() as usize,
            payload_length: self.payload_length_of(),
        }
    }

    /// The builder is as `before`, but for its header, which is now `layer`.
    pub open spec fn follows(&self, before: Self, layer: Seq<u8>) -> bool {
        &&& self.wf()
        &&& rewritten(before.buffer_of(), self.buffer_of(), layer)
        &&& self.finalizers() == before.finalizers()
        &&& self.has_options() == before.has_options()
        &&& self.has_payload() == before.has_payload()
        &&& self.payload_length_of() == before.payload_length_of()
        &&& self.ip_of() == before.ip_of()
    }

    /// Source port.
    pub fn source(self, value: u16) -> (r: Result<Self, Error>)
        requires
            self.wf(),
        ensures
            match r {
                Ok(b) => b.follows(
                    self,
                    overwrite(self.buffer_of().layer(), 0, be_bytes_u16(value)),
                ),
                Err(_) => false,
            },
    {
        let mut this = self;
        put_u16(&mut this.buffer, 0, value);
        Ok(this)
    }

    /// Destination port.
    pub fn destination(self, value: u16) -> (r: Result<Self, Error>)
        requires
            self.wf(),
        ensures
            match r {
                Ok(b) => b.follows(
                    self,
                    overwrite(self.buffer_of().layer(), 2, be_bytes_u16(value)),
                ),
                Err(_) => false,
            },
    {
        let mut this = self;
        put_u16(&mut this.buffer, 2, value);
        Ok(this)
    }

    /// Packet sequence.
    pub fn sequence(self, value: u32) -> (r: Result<Self, Error>)
        requires
            self.wf(),
        ensures
            match r {
                Ok(b) => b.follows(
                    self,
                    overwrite(self.buffer_of().layer(), 4, be_bytes_u32(value)),
                ),
                Err(_) => false,
            },
    {
        let mut this = self;
        put_u32(&mut this.buffer, 4, value);
        Ok(this)
    }

    /// Optional acknowledgment.
    pub fn acknowledgment(self, value: u32) -> (r: Result<Self, Error>)
        requires
            self.wf(),
        ensures
            match r {
                Ok(b) => b.follows(
                    self,
                    overwrite(self.buffer_of().layer(), 8, be_bytes_u32(value)),
                ),
                Err(_) => false,
            },
    {
        let mut this = self;
        put_u32(&mut this.buffer, 8, value);
        Ok(this)
    }

    /// Packet flags.
    pub fn flags(self, value: Flags) -> (r: Result<Self, Error>)
        requires
            self.wf(),
        ensures
            match r {
                Ok(b) => b.follows(self, with_flags(self.buffer_of().layer(), value)),
                Err(_) => false,
            },
    {
        let mut this = self;
        put_u16(&mut this.buffer, 12, value.bits());
        Ok(this)
    }

    /// Packet window.
    pub fn window(self, value: u16) -> (r: Result<Self, Error>)
        requires
            self.wf(),
        ensures
            match r {
                Ok(b) => b.follows(
                    self,
                    overwrite(self.buffer_of().layer(), 14, be_bytes_u16(value)),
                ),
                Err(_) => false,
            },
    {
        let mut this = self;
        put_u16(&mut this.buffer, 14, value);
        Ok(this)
    }

    /// Urgent pointer.
    pub fn pointer(self, value: u16) -> (r: Result<Self, Error>)
        requires
            self.wf(),
        ensures
            match r {
                Ok(b) => b.follows(
                    self,
                    overwrite(self.buffer_of().layer(), 18, be_bytes_u16(value)),
                ),
                Err(_) => false,
            },
    {
        let mut this = self;
        put_u16(&mut this.buffer, 18, value);
        Ok(this)
    }

    /// Payload for the packet. It can be given once.
    pub fn payload(self, value: &[u8]) -> (r: Result<Self, Error>)
        requires
            self.wf(),
        ensures
            match r {
                Ok(b) => {
                    &&& !self.has_payload()
                    &&& b.wf()
                    &&& grown(self.buffer_of(), b.buffer_of(), value@)
                    &&& b.has_payload()
                    &&& b.payload_length_of() == value@.len()
                    &&& b.finalizers() == self.finalizers()
                    &&& b.has_options() == self.has_options()
                    &&& b.ip_of() == self.ip_of()
                },
                Err(e) => if self.has_payload() {
                    e == Error::AlreadyDefined
                } else {
                    e == Error::SmallBuffer && self.buffer_of().claimed() + value@.len()
                        > self.buffer_of().limit()
                },
            },
    {
        if self.payload {
            return Err(Error::AlreadyDefined);
        }
        let mut this = self;
        this.payload = true;
        match append(&mut this.buffer, value) {
            Ok(_) => {},
            Err(e) => {
                return Err(e);
            },
        }
        this.payload_length = value.len();
        Ok(this)
    }

    /// Queue the work that the finished packet needs.
    fn prepare(&mut self)
        requires
            old(self).wf(),
        ensures
            final(self).wf(),
            final(self).buffer_of() == old(self).buffer_of(),
            final(self).finalizers() == old(self).finalizers().push(old(self).fixup()),
            final(self).has_options() == old(self).has_options(),
            final(self).has_payload() == old(self).has_payload(),
            final(self).payload_length_of() == old(self).payload_length_of(),
            final(self).ip_of() == old(self).ip_of(),
    {
        let offset: usize = self.buffer.offset();
        let length: usize = self.buffer.length();
        self.finalizer.add(Fixup::Tcp {
            ip_offset: self.ip.0,
            ip_length: self.ip.1,
            length,
            payload_length: self.payload_length,
        });
    }
}

impl<'a, B: Buffer> AsPacket<'a, Packet<&'a [u8]>> for Builder<B> {
    open spec fn readable(&self) -> bool {
        self.wf()
    }

    open spec fn packet_bytes(&self) -> Seq<u8> {
        self.buffer_of().layer()
    }

    open spec fn parsed(bytes: Seq<u8>) -> Result<(), Error> {
        crate::tcp::packet::check(bytes)
    }

    fn as_packet(&'a self) -> (r: Result<Packet<&'a [u8]>, Error>) {
        Packet::new(self.buffer.data())
    }
}

impl<'a, B: Buffer> AsPacketMut<'a, Packet<&'a mut [u8]>> for Builder<B> {
    open spec fn writable(&self) -> bool {
        self.wf()
    }

    open spec fn packet_bytes_mut(&self) -> Seq<u8> {
        self.buffer_of().layer()
    }

    open spec fn parsed_mut(bytes: Seq<u8>) -> Result<(), Error> {
        crate::tcp::packet::check(bytes)
    }

    fn as_packet_mut(&'a mut self) -> (r: Result<Packet<&'a mut [u8]>, Error>) {
        Packet::new(self.buffer.data_mut())
    }
}

} // verus!
