use vstd::prelude::*;
use crate::bytes::{to_vec, AsBytes, AsBytesMut};
use crate::checksum::is_valid_at;
use crate::endian::{be_u16, read_u16};
use crate::error::Error;
use crate::packet::{AsPacket, AsPacketMut, Packet as P, PacketMut as PM};
use crate::size;
use super::Kind;
use super::checksum;
use super::{echo, information, parameter_problem, previous, redirect_message, timestamp};

verus! {

/// Control message parser.
pub struct Packet<B> {
    buffer: B,
}

/// What parsing makes of the bytes: too few where they are less than the
/// header.
pub open spec fn check(bytes: Seq<u8>) -> Result<(), Error> {
    if bytes.len() < 4 {
        Err(Error::SmallBuffer)
    } else {
        Ok(())
    }
}

impl<B: AsBytes> View for Packet<B> {
    type V = Seq<u8>;

    closed spec fn view(&self) -> Seq<u8> {
        self.buffer.bytes()
    }
}

impl<B: AsBytes> AsBytes for Packet<B> {
    open spec fn bytes(&self) -> Seq<u8> {
        self@
    }

    proof fn lemma_bytes_len(&self) {
        self.buffer.lemma_bytes_len();
    }

    fn as_bytes(&self) -> (r: &[u8]) {
        self.buffer.as_bytes()
    }
}

impl<B: AsBytesMut> AsBytesMut for Packet<B> {
    fn as_bytes_mut(&mut self) -> (r: &mut [u8]) {
        self.buffer.as_bytes_mut()
    }
}

impl<B> size::header::Min for Packet<B> {
    open spec fn header_min() -> nat {
        4
    }

    fn min() -> (r: usize) {
        4
    }
}

impl<B> size::header::Max for Packet<B> {
    open spec fn header_max() -> nat {
        4
    }

    fn max() -> (r: usize) {
        4
    }
}

impl<B: AsBytes> size::header::Size for Packet<B> {
    open spec fn header_sized(&self) -> bool {
        true
    }

    open spec fn header_size(&self) -> nat {
        4
    }

    fn size(&self) -> (r: usize) {
        assert(self.header_sized());
        assert(self.header_size() == 4);
        4
    }
}

impl<B> size::payload::Min for Packet<B> {
    open spec fn payload_min() -> nat {
        0
    }

    fn min() -> (r: usize) {
        0
    }
}

impl<B: AsBytes> size::payload::Size for Packet<B> {
    open spec fn payload_sized(&self) -> bool {
        self@.len() >= 4
    }

    open spec fn payload_size(&self) -> nat {
        (self@.len() - 4) as nat
    }

    fn size(&self) -> (r: usize) {
        assert(self.payload_sized());
        assert(self.payload_size() == (self@.len() - 4) as nat);
        self.buffer.as_bytes().len() - 4
    }
}

impl<B: AsBytes> Packet<B> {
    /// Create a control message without checking the buffer.
    pub fn unchecked(buffer: B) -> (r: Packet<B>)
        ensures
            r@ == buffer.bytes(),
    {
        Packet { buffer }
    }

    /// Parse a control message, checking the buffer contents are correct.
    pub fn new(buffer: B) -> (r: Result<Packet<B>, Error>)
        ensures
            match r {
                Ok(packet) => check(buffer.bytes()) is Ok && packet@ == buffer.bytes(),
                Err(e) => check(buffer.bytes()) == Err::<(), Error>(e),
            },
    {
        let packet = Packet { buffer };
        if packet.buffer.as_bytes().len() < 4 {
            return Err(Error::SmallBuffer);
        }
        Ok(packet)
    }

    /// Convert the packet to its owned version.
    pub fn to_owned(&self) -> (r: Packet<Vec<u8>>)
        ensures
            r@ == self@,
    {
        Packet { buffer: to_vec(&self.buffer) }
    }

    /// The bytes of the packet: header and payload, without what lies behind.
    pub fn as_ref(&self) -> (r: &[u8])
        requires
            self@.len() >= 4,
        ensures
            r@ == self@.take(self@.len() as int),
    {
        proof {
            self.lemma_bytes_len();
            assert(size::header::Size::header_sized(self));
            assert(size::payload::Size::payload_sized(self));
        }
        let size: usize = size::Size::size(self);
        vstd::slice::slice_subrange(self.buffer.as_bytes(), 0, size)
    }
}

impl<B: AsBytesMut> Packet<B> {
    /// The bytes of the packet, to be written: header and payload, without
    /// what lies behind, which stays.
    pub fn as_mut(&mut self) -> (r: &mut [u8])
        requires
            old(self)@.len() >= 4,
        ensures
            r@ == old(self)@.take(old(self)@.len() as int),
            (*final(self))@ == final(r)@ + old(self)@.skip(old(self)@.len() as int),
    {
        proof {
            self.lemma_bytes_len();
            assert(size::header::Size::header_sized(self));
            assert(size::payload::Size::payload_sized(self));
        }
        let size: usize = size::Size::size(self);
        let (front, _) = self.buffer.as_bytes_mut().split_at_mut(size);
        front
    }
}

impl<B: AsBytes> P for Packet<B> {
    open spec fn raw(&self) -> Seq<u8> {
        self@
    }

    open spec fn header_end(&self) -> int {
        4
    }

    open spec fn payload_end(&self) -> int {
        self@.len() as int
    }

    open spec fn splittable(&self) -> bool {
        self@.len() >= 4
    }

    proof fn lemma_split_bounds(&self) {
    }

    fn split(&self) -> (r: (&[u8], &[u8])) {
        assert(self.splittable());
        let r = self.buffer.as_bytes().split_at(4);
        assert(self.payload_end() == self@.len());
        r
    }
}

impl<B: AsBytesMut> PM for Packet<B> {
    fn split_mut(&mut self) -> (r: (&mut [u8], &mut [u8])) {
        assert(self.splittable());
        let r = self.buffer.as_bytes_mut().split_at_mut(4);
        proof {
            assert(old(self).payload_end() == old(self)@.len());
            assert(old(self)@.skip(old(self)@.len() as int) =~= Seq::<u8>::empty());
        }
        r
    }
}

impl<B: AsBytes> Packet<B> {
    /// Packet type.
    pub fn kind(&self) -> (r: Kind)
        requires
            self@.len() > 0,
        ensures
            r == Kind::of(self@[0]),
    {
        Kind::from_number(self.buffer.as_bytes()[0])
    }

    /// Packet code.
    pub fn code(&self) -> (r: u8)
        requires
            self@.len() > 1,
        ensures
            r == self@[1],
    {
        self.buffer.as_bytes()[1]
    }

    /// Packet checksum.
    pub fn checksum(&self) -> (r: u16)
        requires
            self@.len() >= 4,
        ensures
            r == be_u16(self@, 2),
    {
        read_u16(self.buffer.as_bytes(), 2)
    }

    /// Verify the packet is valid by calculating the checksum.
    pub fn is_valid(&self) -> (r: bool)
        requires
            self@.len() >= 4,
        ensures
            r == is_valid_at(self@, 2),
    {
        checksum(self.buffer.as_bytes()) == self.checksum()
    }

    /// Parse an Echo Request/Reply packet.
    pub fn echo(&self) -> (r: Result<echo::Packet<&B>, Error>)
        ensures
            match r {
                Ok(packet) => echo::packet::check(self@) is Ok && packet@ == self@,
                Err(e) => echo::packet::check(self@) == Err::<(), Error>(e),
            },
    {
        echo::Packet::new(&self.buffer)
    }

    /// Parse an Echo Request/Reply packet, to be written.
    pub fn echo_mut(&mut self) -> (r: Result<echo::Packet<&mut B>, Error>)
        ensures
            match r {
                Ok(packet) => echo::packet::check(old(self)@) is Ok && packet@ == old(self)@,
                Err(e) => echo::packet::check(old(self)@) == Err::<(), Error>(e),
            },
    {
        echo::Packet::new(&mut self.buffer)
    }

    /// Parse a Timestamp Request/Reply packet.
    pub fn timestamp(&self) -> (r: Result<timestamp::Packet<&B>, Error>)
        ensures
            match r {
                Ok(packet) => timestamp::packet::check(self@) is Ok && packet@ == self@,
                Err(e) => timestamp::packet::check(self@) == Err::<(), Error>(e),
            },
    {
        timestamp::Packet::new(&self.buffer)
    }

    /// Parse a Timestamp Request/Reply packet, to be written.
    pub fn timestamp_mut(&mut self) -> (r: Result<timestamp::Packet<&mut B>, Error>)
        ensures
            match r {
                Ok(packet) => timestamp::packet::check(old(self)@) is Ok && packet@ == old(self)@,
                Err(e) => timestamp::packet::check(old(self)@) == Err::<(), Error>(e),
            },
    {
        timestamp::Packet::new(&mut self.buffer)
    }

    /// Parse an Information Request/Reply packet.
    pub fn information(&self) -> (r: Result<information::Packet<&B>, Error>)
        ensures
            match r {
                Ok(packet) => information::packet::check(self@) is Ok && packet@ == self@,
                Err(e) => information::packet::check(self@) == Err::<(), Error>(e),
            },
    {
        information::Packet::new(&self.buffer)
    }

    /// Parse an Information Request/Reply packet, to be written.
    pub fn information_mut(&mut self) -> (r: Result<information::Packet<&mut B>, Error>)
        ensures
            match r {
                Ok(packet) => information::packet::check(old(self)@) is Ok && packet@ == old(self)@,
                Err(e) => information::packet::check(old(self)@) == Err::<(), Error>(e),
            },
    {
        information::Packet::new(&mut self.buffer)
    }

    /// Parse a Parameter Problem packet.
    pub fn parameter_problem(&self) -> (r: Result<parameter_problem::Packet<&B>, Error>)
        ensures
            match r {
                Ok(packet) => parameter_problem::packet::check(self@) is Ok && packet@ == self@,
                Err(e) => parameter_problem::packet::check(self@) == Err::<(), Error>(e),
            },
    {
        parameter_problem::Packet::new(&self.buffer)
    }

    /// Parse a Parameter Problem packet, to be written.
    pub fn parameter_problem_mut(&mut self) -> (r: Result<parameter_problem::Packet<&mut B>, Error>)
        ensures
            match r {
                Ok(packet) => parameter_problem::packet::check(old(self)@) is Ok
                    && packet@ == old(self)@,
                Err(e) => parameter_problem::packet::check(old(self)@) == Err::<(), Error>(e),
            },
    {
        parameter_problem::Packet::new(&mut self.buffer)
    }

    /// Parse a Redirect Message packet.
    pub fn redirect_message(&self) -> (r: Result<redirect_message::Packet<&B>, Error>)
        ensures
            match r {
                Ok(packet) => redirect_message::packet::check(self@) is Ok && packet@ == self@,
                Err(e) => redirect_message::packet::check(self@) == Err::<(), Error>(e),
            },
    {
        redirect_message::Packet::new(&self.buffer)
    }

    /// Parse a Redirect Message packet, to be written.
    pub fn redirect_message_mut(&mut self) -> (r: Result<redirect_message::Packet<&mut B>, Error>)
        ensures
            match r {
                Ok(packet) => redirect_message::packet::check(old(self)@) is Ok
                    && packet@ == old(self)@,
                Err(e) => redirect_message::packet::check(old(self)@) == Err::<(), Error>(e),
            },
    {
        redirect_message::Packet::new(&mut self.buffer)
    }

    /// Parse a Source Quench, Destination Unreachable or Time Exceeded packet.
    pub fn previous(&self) -> (r: Result<previous::Packet<&B>, Error>)
        ensures
            match r {
                Ok(packet) => previous::packet::check(self@) is Ok && packet@ == self@,
                Err(e) => previous::packet::check(self@) == Err::<(), Error>(e),
            },
    {
        previous::Packet::new(&self.buffer)
    }

    /// Parse a Source Quench, Destination Unreachable or Time Exceeded packet, to be written.
    pub fn previous_mut(&mut self) -> (r: Result<previous::Packet<&mut B>, Error>)
        ensures
            match r {
                Ok(packet) => previous::packet::check(old(self)@) is Ok && packet@ == old(self)@,
                Err(e) => previous::packet::check(old(self)@) == Err::<(), Error>(e),
            },
    {
        previous::Packet::new(&mut self.buffer)
    }
}

impl<'a, B: AsBytes + ?Sized> AsPacket<'a, Packet<&'a [u8]>> for B {
    open spec fn readable(&self) -> bool {
        true
    }

    open spec fn packet_bytes(&self) -> Seq<u8> {
        self.bytes()
    }

    open spec fn parsed(bytes: Seq<u8>) -> Result<(), Error> {
        check(bytes)
    }

    fn as_packet(&'a self) -> (r: Result<Packet<&'a [u8]>, Error>) {
        Packet::new(self.as_bytes())
    }
}

impl<'a, B: AsBytesMut + ?Sized> AsPacketMut<'a, Packet<&'a mut [u8]>> for B {
    open spec fn writable(&self) -> bool {
        true
    }

    open spec fn packet_bytes_mut(&self) -> Seq<u8> {
        self.bytes()
    }

    open spec fn parsed_mut(bytes: Seq<u8>) -> Result<(), Error> {
        check(bytes)
    }

    fn as_packet_mut(&'a mut self) -> (r: Result<Packet<&'a mut [u8]>, Error>) {
        Packet::new(self.as_bytes_mut())
    }
}

/// A scope of writes to a control message that ends with the checksum set
/// right: every setter writes its field at once, `finish` recalculates the
/// checksum. A scope has to be finished: one that is only let go leaves the
/// checksum as it was. For a single write the `checked_` functions of the
/// view open the scope and finish it in one call.
#[must_use]
pub struct Checked<'a, P> {
    pub packet: &'a mut P,
}

} // verus!
