use vstd::prelude::*;
use crate::bytes::{to_vec, AsBytes, AsBytesMut};
use crate::endian::{be_u16, read_u16};
use crate::error::Error;
use crate::icmp::Kind;
use crate::packet::{AsPacket, AsPacketMut, Packet as P, PacketMut as PM};
use crate::size;

verus! {

/// Echo Request/Reply packet parser.
pub struct Packet<B> {
    buffer: B,
}

/// Whether the first byte announces a kind of message that this view reads.
pub open spec fn right_kind(bytes: Seq<u8>) -> bool {
    Kind::of(bytes[0]) == Kind::EchoRequest || Kind::of(bytes[0]) == Kind::EchoReply
}

/// What parsing makes of the bytes: too few for the header, or not the kind
/// of message that this view reads.
pub open spec fn check(bytes: Seq<u8>) -> Result<(), Error> {
    if bytes.len() < 8 {
        Err(Error::SmallBuffer)
    } else if !right_kind(bytes) {
        Err(Error::InvalidPacket)
    } else {
        Ok(())
    }
}

impl<B: AsBytes> View for Packet<B> {
    type V = Seq<u8>;

    closed spec fn view(&self) -> Seq<u8> {
        self.buffer.bytes()
    }
}

impl<B: AsBytes> AsBytes for Packet<B> {
    open spec fn bytes(&self) -> Seq<u8> {
        self@
    }

    proof fn lemma_bytes_len(&self) {
        self.buffer.lemma_bytes_len();
    }

    fn as_bytes(&self) -> (r: &[u8]) {
        self.buffer.as_bytes()
    }
}

impl<B: AsBytesMut> AsBytesMut for Packet<B> {
    fn as_bytes_mut(&mut self) -> (r: &mut [u8]) {
        self.buffer.as_bytes_mut()
    }
}

impl<B> size::header::Min for Packet<B> {
    open spec fn header_min() -> nat {
        8
    }

    fn min() -> (r: usize) {
        8
    }
}

impl<B> size::header::Max for Packet<B> {
    open spec fn header_max() -> nat {
        8
    }

    fn max() -> (r: usize) {
        8
    }
}

impl<B: AsBytes> size::header::Size for Packet<B> {
    open spec fn header_sized(&self) -> bool {
        true
    }

    open spec fn header_size(&self) -> nat {
        8
    }

    fn size(&self) -> (r: usize) {
        assert(self.header_sized());
        assert(self.header_size() == 8);
        8
    }
}

impl<B> size::payload::Min for Packet<B> {
    open spec fn payload_min() -> nat {
        0
    }

    fn min() -> (r: usize) {
        0
    }
}

impl<B: AsBytes> size::payload::Size for Packet<B> {
    open spec fn payload_sized(&self) -> bool {
        self@.len() >= 8
    }

    open spec fn payload_size(&self) -> nat {
        (self@.len() - 8) as nat
    }

    fn size(&self) -> (r: usize) {
        assert(self.payload_sized());
        assert(self.payload_size() == (self@.len() - 8) as nat);
        self.buffer.as_bytes().len() - 8
    }
}

impl<B: AsBytes> Packet<B> {
    /// Parse an Echo Request/Reply packet, checking the buffer contents are correct.
    pub fn new(buffer: B) -> (r: Result<Packet<B>, Error>)
        ensures
            match r {
                Ok(packet) => check(buffer.bytes()) is Ok && packet@ == buffer.bytes(),
                Err(e) => check(buffer.bytes()) == Err::<(), Error>(e),
            },
    {
        let packet = Packet { buffer };
        if packet.buffer.as_bytes().len() < 8 {
            return Err(Error::SmallBuffer);
        }
        match Kind::from_number(packet.buffer.as_bytes()[0]) {
            Kind::EchoRequest | Kind::EchoReply => {},
            _ => {
                return Err(Error::InvalidPacket);
            },
        }
        Ok(packet)
    }

    /// Convert the packet to its owned version.
    pub fn to_owned(&self) -> (r: Packet<Vec<u8>>)
        ensures
            r@ == self@,
    {
        Packet { buffer: to_vec(&self.buffer) }
    }

    /// The bytes of the packet: header and payload, without what lies behind.
    pub fn as_ref(&self) -> (r: &[u8])
        requires
            self@.len() >= 8,
        ensures
            r@ == self@.take(self@.len() as int),
    {
        proof {
            self.lemma_bytes_len();
            assert(size::header::Size::header_sized(self));
            assert(size::payload::Size::payload_sized(self));
        }
        let size: usize = size::Size::size(self);
        vstd::slice::slice_subrange(self.buffer.as_bytes(), 0, size)
    }
}

impl<B: AsBytes> P for Packet<B> {
    open spec fn raw(&self) -> Seq<u8> {
        self@
    }

    open spec fn header_end(&self) -> int {
        8
    }

    open spec fn payload_end(&self) -> int {
        self@.len() as int
    }

    open spec fn splittable(&self) -> bool {
        self@.len() >= 8
    }

    proof fn lemma_split_bounds(&self) {
    }

    fn split(&self) -> (r: (&[u8], &[u8])) {
        assert(self.splittable());
        let r = self.buffer.as_bytes().split_at(8);
        assert(self.payload_end() == self@.len());
        r
    }
}

impl<B: AsBytes> Packet<B> {
    /// Check if it's a Request packet.
    pub fn is_request(&self) -> (r: bool)
        requires
            self@.len() > 0,
        ensures
            r == (Kind::of(self@[0]) == Kind::EchoRequest),
    {
        Kind::from_number(self.buffer.as_bytes()[0]) == Kind::EchoRequest
    }

    /// Check if it's a Reply packet.
    pub fn is_reply(&self) -> (r: bool)
        requires
            self@.len() > 0,
        ensures
            r == (Kind::of(self@[0]) == Kind::EchoReply),
    {
        Kind::from_number(self.buffer.as_bytes()[0]) == Kind::EchoReply
    }

    /// Packet identifier.
    pub fn identifier(&self) -> (r: u16)
        requires
            self@.len() >= 6,
        ensures
            r == be_u16(self@, 4),
    {
        read_u16(self.buffer.as_bytes(), 4)
    }

    /// Packet sequence.
    pub fn sequence(&self) -> (r: u16)
        requires
            self@.len() >= 8,
        ensures
            r == be_u16(self@, 6),
    {
        read_u16(self.buffer.as_bytes(), 6)
    }
}

impl<'a, B: AsBytes + ?Sized> AsPacket<'a, Packet<&'a [u8]>> for B {
    open spec fn readable(&self) -> bool {
        true
    }

    open spec fn packet_bytes(&self) -> Seq<u8> {
        self.bytes()
    }

    open spec fn parsed(bytes: Seq<u8>) -> Result<(), Error> {
        check(bytes)
    }

    fn as_packet(&'a self) -> (r: Result<Packet<&'a [u8]>, Error>) {
        Packet::new(self.as_bytes())
    }
}

} // verus!
