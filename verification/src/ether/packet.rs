use vstd::prelude::*;
use hwaddr::HwAddr;
use crate::bytes::{to_vec, AsBytes, AsBytesMut};
use crate::endian::{be_bytes_u16, be_u16, overwrite, read_u16, write_bytes, write_u16};
use crate::error::Error;
use crate::ether::Protocol;
use crate::hw::{from_octets, octets, octets_of};
use crate::packet::{AsPacket, AsPacketMut, Packet as P, PacketMut as PM};
use crate::size;

verus! {

/// Ethernet frame parser.
pub struct Packet<B> {
    buffer: B,
}

/// What parsing makes of the bytes: too few where they are less than the
/// header.
pub open spec fn check(bytes: Seq<u8>) -> Result<(), Error> {
    if bytes.len() < 14 {
        Err(Error::SmallBuffer)
    } else {
        Ok(())
    }
}

impl<B: AsBytes> View for Packet<B> {
    type V = Seq<u8>;

    closed spec fn view(&self) -> Seq<u8> {
        self.buffer.bytes()
    }
}

impl<B: AsBytes> AsBytes for Packet<B> {
    open spec fn bytes(&self) -> Seq<u8> {
        self@
    }

    proof fn lemma_bytes_len(&self) {
        self.buffer.lemma_bytes_len();
    }

    fn as_bytes(&self) -> (r: &[u8]) {
        self.buffer.as_bytes()
    }
}

impl<B: AsBytesMut> AsBytesMut for Packet<B> {
    fn as_bytes_mut(&mut self) -> (r: &mut [u8]) {
        self.buffer.as_bytes_mut()
    }
}

impl<B> size::header::Min for Packet<B> {
    open spec fn header_min() -> nat {
        14
    }

    fn min() -> (r: usize) {
        14
    }
}

impl<B> size::header::Max for Packet<B> {
    open spec fn header_max() -> nat {
        14
    }

    fn max() -> (r: usize) {
        14
    }
}

impl<B: AsBytes> size::header::Size for Packet<B> {
    open spec fn header_sized(&self) -> bool {
        true
    }

    open spec fn header_size(&self) -> nat {
        14
    }

    fn size(&self) -> (r: usize) {
        assert(self.header_sized());
        assert(self.header_size() == 14);
        14
    }
}

impl<B> size::payload::Min for Packet<B> {
    open spec fn payload_min() -> nat {
        0
    }

    fn min() -> (r: usize) {
        0
    }
}

impl<B> size::payload::Max for Packet<B> {
    open spec fn payload_max() -> nat {
        1486
    }

    fn max() -> (r: usize) {
        1486
    }
}

impl<B: AsBytes> size::payload::Size for Packet<B> {
    open spec fn payload_sized(&self) -> bool {
        self@.len() >= 14
    }

    open spec fn payload_size(&self) -> nat {
        (self@.len() - 14) as nat
    }

    fn size(&self) -> (r: usize) {
        assert(self.payload_sized());
        assert(self.payload_size() == (self@.len() - 14) as nat);
        self.buffer.as_bytes().len() - 14
    }
}

impl<B: AsBytes> Packet<B> {
    /// Create an Ethernet frame without checking the buffer.
    pub fn unchecked(buffer: B) -> (r: Packet<B>)
        ensures
            r@ == buffer.bytes(),
    {
        Packet { buffer }
    }

    /// Parse an Ethernet frame, checking the buffer contents are correct.
    pub fn new(buffer: B) -> (r: Result<Packet<B>, Error>)
        ensures
            match r {
                Ok(packet) => check(buffer.bytes()) is Ok && packet@ == buffer.bytes(),
                Err(e) => check(buffer.bytes()) == Err::<(), Error>(e),
            },
    {
        let packet = Packet { buffer };
        if packet.buffer.as_bytes().len() < 14 {
            return Err(Error::SmallBuffer);
        }
        Ok(packet)
    }

    /// Convert the packet to its owned version.
    pub fn to_owned(&self) -> (r: Packet<Vec<u8>>)
        ensures
            r@ == self@,
    {
        Packet { buffer: to_vec(&self.buffer) }
    }

    /// The bytes of the packet: header and payload, without what lies behind.
    pub fn as_ref(&self) -> (r: &[u8])
        requires
            self@.len() >= 14,
        ensures
            r@ == self@.take(self@.len() as int),
    {
        proof {
            self.lemma_bytes_len();
            assert(size::header::Size::header_sized(self));
            assert(size::payload::Size::payload_sized(self));
        }
        let size: usize = size::Size::size(self);
        vstd::slice::slice_subrange(self.buffer.as_bytes(), 0, size)
    }
}

impl<B: AsBytesMut> Packet<B> {
    /// The bytes of the packet, to be written: header and payload, without
    /// what lies behind, which stays.
    pub fn as_mut(&mut self) -> (r: &mut [u8])
        requires
            old(self)@.len() >= 14,
        ensures
            r@ == old(self)@.take(old(self)@.len() as int),
            (*final(self))@ == final(r)@ + old(self)@.skip(old(self)@.len() as int),
    {
        proof {
            self.lemma_bytes_len();
            assert(size::header::Size::header_sized(self));
            assert(size::payload::Size::payload_sized(self));
        }
        let size: usize = size::Size::size(self);
        let (front, _) = self.buffer.as_bytes_mut().split_at_mut(size);
        front
    }
}

impl<B: AsBytes> P for Packet<B> {
    open spec fn raw(&self) -> Seq<u8> {
        self@
    }

    open spec fn header_end(&self) -> int {
        14
    }

    open spec fn payload_end(&self) -> int {
        self@.len() as int
    }

    open spec fn splittable(&self) -> bool {
        self@.len() >= 14
    }

    proof fn lemma_split_bounds(&self) {
    }

    fn split(&self) -> (r: (&[u8], &[u8])) {
        assert(self.splittable());
        let r = self.buffer.as_bytes().split_at(14);
        assert(self.payload_end() == self@.len());
        r
    }
}

impl<B: AsBytesMut> PM for Packet<B> {
    fn split_mut(&mut self) -> (r: (&mut [u8], &mut [u8])) {
        assert(self.splittable());
        let r = self.buffer.as_bytes_mut().split_at_mut(14);
        proof {
            assert(old(self).payload_end() == old(self)@.len());
            assert(old(self)@.skip(old(self)@.len() as int) =~= Seq::<u8>::empty());
        }
        r
    }
}

impl<B: AsBytes> Packet<B> {
    /// MAC address for the destination.
    pub fn destination(&self) -> (r: HwAddr)
        requires
            self@.len() >= 6,
        ensures
            octets_of(r) == self@.subrange(0, 6),
    {
        let r = from_octets(vstd::slice::slice_subrange(self.buffer.as_bytes(), 0, 6));
        assert(self@.subrange(0, 6).take(6) =~= self@.subrange(0, 6));
        r
    }

    /// MAC address for the source.
    pub fn source(&self) -> (r: HwAddr)
        requires
            self@.len() >= 12,
        ensures
            octets_of(r) == self@.subrange(6, 12),
    {
        let r = from_octets(vstd::slice::slice_subrange(self.buffer.as_bytes(), 6, 12));
        assert(self@.subrange(6, 12).take(6) =~= self@.subrange(6, 12));
        r
    }

    /// Protocol of the inner packet.
    pub fn protocol(&self) -> (r: Protocol)
        requires
            self@.len() >= 14,
        ensures
            r == Protocol::of(be_u16(self@, 12)),
    {
        Protocol::from_number(read_u16(self.buffer.as_bytes(), 12))
    }
}

impl<B: AsBytesMut> Packet<B> {
    /// Destination MAC address.
    pub fn set_destination(&mut self, value: HwAddr) -> (r: Result<&mut Self, Error>)
        requires
            old(self)@.len() >= 6,
        ensures
            match r {
                Ok(p) => p@ == overwrite(old(self)@, 0, octets_of(value))
                    && *final(p) == *final(self),
                Err(_) => false,
            },
    {
        let bytes = self.buffer.as_bytes_mut();
        let _ = write_bytes(bytes, 0, octets(&value).as_slice());
        Ok(self)
    }

    /// Source MAC address.
    pub fn set_source(&mut self, value: HwAddr) -> (r: Result<&mut Self, Error>)
        requires
            old(self)@.len() >= 12,
        ensures
            match r {
                Ok(p) => p@ == overwrite(old(self)@, 6, octets_of(value))
                    && *final(p) == *final(self),
                Err(_) => false,
            },
    {
        let bytes = self.buffer.as_bytes_mut();
        let _ = write_bytes(bytes, 6, octets(&value).as_slice());
        Ok(self)
    }

    /// Inner protocol.
    pub fn set_protocol(&mut self, value: Protocol) -> (r: Result<&mut Self, Error>)
        requires
            old(self)@.len() >= 12,
        ensures
            match r {
                Ok(p) => old(self)@.len() >= 14
                    && p@ == overwrite(old(self)@, 12, be_bytes_u16(value.number()))
                    && *final(p) == *final(self),
                Err(e) => old(self)@.len() < 14
                    && e == Error::Io
                    && (*final(self))@ == overwrite(old(self)@, 12, be_bytes_u16(value.number())),
            },
    {
        let bytes = self.buffer.as_bytes_mut();
        match write_u16(bytes, 12, value.into_number()) {
            Ok(_) => Ok(self),
            Err(e) => Err(e),
        }
    }
}

/// The bytes with every field written, one after the other.
pub open spec fn with_fields(
    bytes: Seq<u8>,
    destination: HwAddr,
    source: HwAddr,
    protocol: Protocol,
) -> Seq<u8> {
    let b0 = overwrite(bytes, 0, octets_of(destination));
    let b1 = overwrite(b0, 6, octets_of(source));
    let b2 = overwrite(b1, 12, be_bytes_u16(protocol.number()));
    b2
}

/// Round trip: every field that is written is read back as it was written,
/// whatever was written to the other fields.
pub proof fn lemma_round_trip(
    bytes: Seq<u8>,
    destination: HwAddr,
    source: HwAddr,
    protocol: Protocol,
)
    requires
        bytes.len() >= 14,
        octets_of(destination).len() == 6,
        octets_of(source).len() == 6,
        Protocol::of(protocol.number()) == protocol,
    ensures
        ({
            let written = with_fields(bytes, destination, source, protocol);
            &&& written.len() == bytes.len()
            &&& written.subrange(0, 6) == octets_of(destination)
            &&& written.subrange(6, 12) == octets_of(source)
            &&& Protocol::of(be_u16(written, 12)) == protocol
        }),
{
    let written = with_fields(bytes, destination, source, protocol);
    assert(written.subrange(0, 6) =~= octets_of(destination));
    assert(written.subrange(6, 12) =~= octets_of(source));
    crate::endian::lemma_u16_round_trip(bytes, 12, protocol.number());
}

impl<'a, B: AsBytes + ?Sized> AsPacket<'a, Packet<&'a [u8]>> for B {
    open spec fn readable(&self) -> bool {
        true
    }

    open spec fn packet_bytes(&self) -> Seq<u8> {
        self.bytes()
    }

    open spec fn parsed(bytes: Seq<u8>) -> Result<(), Error> {
        check(bytes)
    }

    fn as_packet(&'a self) -> (r: Result<Packet<&'a [u8]>, Error>) {
        Packet::new(self.as_bytes())
    }
}

impl<'a, B: AsBytesMut + ?Sized> AsPacketMut<'a, Packet<&'a mut [u8]>> for B {
    open spec fn writable(&self) -> bool {
        true
    }

    open spec fn packet_bytes_mut(&self) -> Seq<u8> {
        self.bytes()
    }

    open spec fn parsed_mut(bytes: Seq<u8>) -> Result<(), Error> {
        check(bytes)
    }

    fn as_packet_mut(&'a mut self) -> (r: Result<Packet<&'a mut [u8]>, Error>) {
        Packet::new(self.as_bytes_mut())
    }
}

} // verus!
