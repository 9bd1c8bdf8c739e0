use vstd::prelude::*;
use crate::bytes::{to_vec, AsBytes, AsBytesMut};
use crate::error::Error;
use crate::icmp::Kind;
use crate::ip::v4::packet as v4;
use crate::ip;
use crate::packet::{AsPacket, AsPacketMut, Packet as P, PacketMut as PM};
use crate::size;

verus! {

/// Redirect Message packet parser.
pub struct Packet<B> {
    buffer: B,
}

/// Whether the first byte announces a kind of message that this view reads.
pub open spec fn right_kind(bytes: Seq<u8>) -> bool {
    Kind::of(bytes[0]) == Kind::RedirectMessage
}

/// What parsing makes of the bytes: too few for the header, or not the kind
/// of message that this view reads.
pub open spec fn check(bytes: Seq<u8>) -> Result<(), Error> {
    if bytes.len() < 8 {
        Err(Error::SmallBuffer)
    } else if !right_kind(bytes) {
        Err(Error::InvalidPacket)
    } else {
        Ok(())
    }
}

/// The size of the payload: the header of the datagram that the message
/// quotes, where it parses; else all that lies behind the header.
pub open spec fn payload_extent(bytes: Seq<u8>) -> int {
    if v4::check(bytes.skip(8)) is Ok {
        v4::header_len(bytes.skip(8))
    } else {
        bytes.len() - 8
    }
}

impl<B: AsBytes> View for Packet<B> {
    type V = Seq<u8>;

    closed spec fn view(&self) -> Seq<u8> {
        self.buffer.bytes()
    }
}

impl<B: AsBytes> AsBytes for Packet<B> {
    open spec fn bytes(&self) -> Seq<u8> {
        self@
    }

    proof fn lemma_bytes_len(&self) {
        self.buffer.lemma_bytes_len();
    }

    fn as_bytes(&self) -> (r: &[u8]) {
        self.buffer.as_bytes()
    }
}

impl<B: AsBytesMut> AsBytesMut for Packet<B> {
    fn as_bytes_mut(&mut self) -> (r: &mut [u8]) {
        self.buffer.as_bytes_mut()
    }
}

impl<B> size::header::Min for Packet<B> {
    open spec fn header_min() -> nat {
        8
    }

    fn min() -> (r: usize) {
        8
    }
}

impl<B> size::header::Max for Packet<B> {
    open spec fn header_max() -> nat {
        8
    }

    fn max() -> (r: usize) {
        8
    }
}

impl<B: AsBytes> size::header::Size for Packet<B> {
    open spec fn header_sized(&self) -> bool {
        true
    }

    open spec fn header_size(&self) -> nat {
        8
    }

    fn size(&self) -> (r: usize) {
        assert(self.header_sized());
        assert(self.header_size() == 8);
        8
    }
}

impl<B> size::payload::Min for Packet<B> {
    open spec fn payload_min() -> nat {
        20
    }

    fn min() -> (r: usize) {
        20
    }
}

impl<B> size::payload::Max for Packet<B> {
    open spec fn payload_max() -> nat {
        60
    }

    fn max() -> (r: usize) {
        60
    }
}

impl<B: AsBytes> size::payload::Size for Packet<B> {
    open spec fn payload_sized(&self) -> bool {
        self@.len() >= 8
    }

    open spec fn payload_size(&self) -> nat {
        payload_extent(self@) as nat
    }

    fn size(&self) -> (r: usize) {
        assert(self.payload_sized());
        assert(self.payload_size() == payload_extent(self@) as nat);
        match self.packet() {
            Ok(ip) => {
                proof {
                    v4::lemma_header_len_bounds(self@.skip(8));
                }
                size::header::Size::size(&ip)
            },
            Err(_) => self.buffer.as_bytes().len() - 8,
        }
    }
}

impl<B: AsBytes> Packet<B> {
    /// Create a Redirect Message packet without checking the buffer.
    pub fn unchecked(buffer: B) -> (r: Packet<B>)
        ensures
            r@ == buffer.bytes(),
    {
        Packet { buffer }
    }

    /// Parse a Redirect Message packet, checking the buffer contents are correct.
    pub fn new(buffer: B) -> (r: Result<Packet<B>, Error>)
        ensures
            match r {
                Ok(packet) => check(buffer.bytes()) is Ok && packet@ == buffer.bytes(),
                Err(e) => check(buffer.bytes()) == Err::<(), Error>(e),
            },
    {
        let packet = Packet { buffer };
        if packet.buffer.as_bytes().len() < 8 {
            return Err(Error::SmallBuffer);
        }
        match Kind::from_number(packet.buffer.as_bytes()[0]) {
            Kind::RedirectMessage => {},
            _ => {
                return Err(Error::InvalidPacket);
            },
        }
        Ok(packet)
    }

    /// Convert the packet to its owned version.
    pub fn to_owned(&self) -> (r: Packet<Vec<u8>>)
        ensures
            r@ == self@,
    {
        Packet { buffer: to_vec(&self.buffer) }
    }

    /// The bytes of the packet: header and payload, without what lies behind.
    pub fn as_ref(&self) -> (r: &[u8])
        requires
            self@.len() >= 8,
        ensures
            r@ == self@.take(8 + payload_extent(self@)),
    {
        proof {
            self.lemma_bytes_len();
            assert(size::header::Size::header_sized(self));
            assert(size::payload::Size::payload_sized(self));
        }
        let size: usize = size::Size::size(self);
        vstd::slice::slice_subrange(self.buffer.as_bytes(), 0, size)
    }
}

impl<B: AsBytesMut> Packet<B> {
    /// The bytes of the packet, to be written: header and payload, without
    /// what lies behind, which stays.
    pub fn as_mut(&mut self) -> (r: &mut [u8])
        requires
            old(self)@.len() >= 8,
        ensures
            r@ == old(self)@.take(8 + payload_extent(old(self)@)),
            (*final(self))@ == final(r)@ + old(self)@.skip(8 + payload_extent(old(self)@)),
    {
        proof {
            self.lemma_bytes_len();
            assert(size::header::Size::header_sized(self));
            assert(size::payload::Size::payload_sized(self));
        }
        let size: usize = size::Size::size(self);
        let (front, _) = self.buffer.as_bytes_mut().split_at_mut(size);
        front
    }
}

impl<B: AsBytes> P for Packet<B> {
    open spec fn raw(&self) -> Seq<u8> {
        self@
    }

    open spec fn header_end(&self) -> int {
        8
    }

    open spec fn payload_end(&self) -> int {
        self@.len() as int
    }

    open spec fn splittable(&self) -> bool {
        self@.len() >= 8
    }

    proof fn lemma_split_bounds(&self) {
    }

    fn split(&self) -> (r: (&[u8], &[u8])) {
        assert(self.splittable());
        let r = self.buffer.as_bytes().split_at(8);
        assert(self.payload_end() == self@.len());
        r
    }
}

impl<B: AsBytesMut> PM for Packet<B> {
    fn split_mut(&mut self) -> (r: (&mut [u8], &mut [u8])) {
        assert(self.splittable());
        let r = self.buffer.as_bytes_mut().split_at_mut(8);
        proof {
            assert(old(self).payload_end() == old(self)@.len());
            assert(old(self)@.skip(old(self)@.len() as int) =~= Seq::<u8>::empty());
        }
        r
    }
}

impl<B: AsBytes> Packet<B> {
    /// The gateway the message should be sent to.
    pub fn gateway(&self) -> (r: [u8; 4])
        requires
            self@.len() >= 8,
        ensures
            r@ == self@.subrange(4, 8),
    {
        let bytes = self.buffer.as_bytes();
        let r: [u8; 4] = [bytes[4], bytes[5], bytes[6], bytes[7]];
        assert(r@ =~= self@.subrange(4, 8));
        r
    }

    /// The packet that caused this message.
    pub fn packet(&self) -> (r: Result<ip::v4::Packet<&[u8]>, Error>)
        requires
            self@.len() >= 8,
        ensures
            match r {
                Ok(packet) => v4::check(self@.skip(8)) is Ok && packet@ == self@.skip(8),
                Err(e) => v4::check(self@.skip(8)) == Err::<(), Error>(e),
            },
    {
        let bytes = self.buffer.as_bytes();
        ip::v4::Packet::new(vstd::slice::slice_subrange(bytes, 8, bytes.len()))
    }
}

impl<'a, B: AsBytes + ?Sized> AsPacket<'a, Packet<&'a [u8]>> for B {
    open spec fn readable(&self) -> bool {
        true
    }

    open spec fn packet_bytes(&self) -> Seq<u8> {
        self.bytes()
    }

    open spec fn parsed(bytes: Seq<u8>) -> Result<(), Error> {
        check(bytes)
    }

    fn as_packet(&'a self) -> (r: Result<Packet<&'a [u8]>, Error>) {
        Packet::new(self.as_bytes())
    }
}

impl<'a, B: AsBytesMut + ?Sized> AsPacketMut<'a, Packet<&'a mut [u8]>> for B {
    open spec fn writable(&self) -> bool {
        true
    }

    open spec fn packet_bytes_mut(&self) -> Seq<u8> {
        self.bytes()
    }

    open spec fn parsed_mut(bytes: Seq<u8>) -> Result<(), Error> {
        check(bytes)
    }

    fn as_packet_mut(&'a mut self) -> (r: Result<Packet<&'a mut [u8]>, Error>) {
        Packet::new(self.as_bytes_mut())
    }
}

} // verus!
