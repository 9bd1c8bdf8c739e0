use vstd::prelude::*;
use vstd::std_specs::convert::FromSpecImpl;
use crate::bytes::{AsBytes, AsBytesMut};
use crate::endian::be_bytes_u16;
use crate::error::Error;
use crate::ip::v4::packet as four;
use crate::ip::v6::packet as six;
use crate::ip::{v4, v6};
use crate::packet::{AsPacket, AsPacketMut, Packet as P, PacketMut as PM};
use crate::size::Size as _;
use crate::size::header::Size as _;
use crate::size::payload::Size as _;
use crate::size;

verus! {

/// A generic IP packet.
pub enum Packet<B> {
    /// IPv4 packet.
    V4(v4::Packet<B>),
    /// IPv6 packet.
    V6(v6::Packet<B>),
}

/// What parsing without a look at the payload makes of the bytes, by the
/// version that their first nibble announces.
pub open spec fn check_header(bytes: Seq<u8>) -> Result<(), Error> {
    if bytes[0] >> 4 == 4 {
        four::check_header(bytes)
    } else if bytes[0] >> 4 == 6 {
        six::check(bytes)
    } else {
        Err(Error::InvalidPacket)
    }
}

/// What parsing makes of the bytes, by the version that their first nibble
/// announces.
pub open spec fn check(bytes: Seq<u8>) -> Result<(), Error> {
    if bytes[0] >> 4 == 4 {
        four::check(bytes)
    } else if bytes[0] >> 4 == 6 {
        six::check(bytes)
    } else {
        Err(Error::InvalidPacket)
    }
}

/// The pseudo-header that stands before a segment when its checksum is
/// calculated: source and destination address of the IP packet, a zero byte,
/// the number of the protocol and the length of the segment in sixteen bits;
/// for IPv6 filled up with zeros to forty bytes.
pub open spec fn pseudo_header(v4: bool, ip: Seq<u8>, protocol: u8, length: nat) -> Seq<u8> {
    if v4 {
        ip.subrange(12, 20) + seq![0u8, protocol] + be_bytes_u16((length % 0x1_0000) as u16)
    } else {
        ip.subrange(8, 40) + seq![0u8, protocol] + be_bytes_u16((length % 0x1_0000) as u16)
            + seq![0u8, 0u8, 0u8, 0u8]
    }
}

impl<B: AsBytes> View for Packet<B> {
    type V = Seq<u8>;

    open spec fn view(&self) -> Seq<u8> {
        match *self {
            Packet::V4(packet) => packet@,
            Packet::V6(packet) => packet@,
        }
    }
}

impl<B: AsBytes> AsBytes for Packet<B> {
    open spec fn bytes(&self) -> Seq<u8> {
        self@
    }

    proof fn lemma_bytes_len(&self) {
        match *self {
            Packet::V4(packet) => packet.lemma_bytes_len(),
            Packet::V6(packet) => packet.lemma_bytes_len(),
        }
    }

    fn as_bytes(&self) -> (r: &[u8]) {
        match self {
            Packet::V4(packet) => packet.as_bytes(),
            Packet::V6(packet) => packet.as_bytes(),
        }
    }
}

impl<B: AsBytesMut> AsBytesMut for Packet<B> {
    fn as_bytes_mut(&mut self) -> (r: &mut [u8]) {
        match self {
            Packet::V4(packet) => packet.as_bytes_mut(),
            Packet::V6(packet) => packet.as_bytes_mut(),
        }
    }
}

impl<B: AsBytes> Packet<B> {
    /// Create an IP packet without checking the buffer. The version field is
    /// still read, to pick an IPv4 or IPv6 packet: it has to be one of them.
    pub fn unchecked(buffer: B) -> (r: Packet<B>)
        requires
            buffer.bytes().len() >= 1,
            buffer.bytes()[0] >> 4 == 4 || buffer.bytes()[0] >> 4 == 6,
        ensures
            r@ == buffer.bytes(),
            r is V4 <==> buffer.bytes()[0] >> 4 == 4,
    {
        match buffer.as_bytes()[0] >> 4 {
            4 => Packet::V4(v4::Packet::unchecked(buffer)),
            _ => Packet::V6(v6::Packet::unchecked(buffer)),
        }
    }

    /// Parse an IP packet without checking the payload.
    pub fn no_payload(buffer: B) -> (r: Result<Packet<B>, Error>)
        requires
            buffer.bytes().len() >= 1,
        ensures
            match r {
                Ok(packet) => check_header(buffer.bytes()) is Ok && packet@ == buffer.bytes() && (
                packet is V4 <==> buffer.bytes()[0] >> 4 == 4),
                Err(e) => check_header(buffer.bytes()) == Err::<(), Error>(e),
            },
    {
        match buffer.as_bytes()[0] >> 4 {
            4 => match v4::Packet::no_payload(buffer) {
                Ok(packet) => Ok(Packet::V4(packet)),
                Err(e) => Err(e),
            },
            6 => match v6::Packet::no_payload(buffer) {
                Ok(packet) => Ok(Packet::V6(packet)),
                Err(e) => Err(e),
            },
            _ => Err(Error::InvalidPacket),
        }
    }

    /// Parse an IP packet, checking the buffer contents are correct.
    pub fn new(buffer: B) -> (r: Result<Packet<B>, Error>)
        requires
            buffer.bytes().len() >= 1,
        ensures
            match r {
                Ok(packet) => check(buffer.bytes()) is Ok && packet@ == buffer.bytes() && (
                packet is V4 <==> buffer.bytes()[0] >> 4 == 4),
                Err(e) => check(buffer.bytes()) == Err::<(), Error>(e),
            },
    {
        match buffer.as_bytes()[0] >> 4 {
            4 => match v4::Packet::new(buffer) {
                Ok(packet) => Ok(Packet::V4(packet)),
                Err(e) => Err(e),
            },
            6 => match v6::Packet::new(buffer) {
                Ok(packet) => Ok(Packet::V6(packet)),
                Err(e) => Err(e),
            },
            _ => Err(Error::InvalidPacket),
        }
    }

    /// Convert the packet to its owned version.
    pub fn to_owned(&self) -> (r: Packet<Vec<u8>>)
        ensures
            r@ == self@,
            r is V4 <==> self is V4,
    {
        match self {
            Packet::V4(packet) => Packet::V4(packet.to_owned()),
            Packet::V6(packet) => Packet::V6(packet.to_owned()),
        }
    }

    /// The bytes of the packet: header and payload, without what lies behind.
    pub fn as_ref(&self) -> (r: &[u8])
        requires
            self.sized(),
            self.total_size() <= self@.len(),
        ensures
            r@ == self@.take(self.total_size() as int),
    {
        match self {
            Packet::V4(packet) => packet.as_ref(),
            Packet::V6(packet) => packet.as_ref(),
        }
    }

    /// The pseudo-header that stands before a segment of the given protocol
    /// and length when its checksum is calculated.
    pub fn pseudo_header(&self, protocol: u8, length: usize) -> (r: Vec<u8>)
        requires
            self is V4 ==> self@.len() >= 20,
            self is V6 ==> self@.len() >= 40,
        ensures
            r@ == pseudo_header(self is V4, self@, protocol, length as nat),
            r@.len() % 2 == 0,
    {
        let mut prefix: Vec<u8> = Vec::new();
        match self {
            Packet::V4(packet) => {
                let source: [u8; 4] = packet.source();
                let destination: [u8; 4] = packet.destination();
                prefix.extend_from_slice(source.as_slice());
                prefix.extend_from_slice(destination.as_slice());
                assert(prefix@ =~= self@.subrange(12, 20));
            },
            Packet::V6(packet) => {
                let source: [u8; 16] = packet.source();
                let destination: [u8; 16] = packet.destination();
                prefix.extend_from_slice(source.as_slice());
                prefix.extend_from_slice(destination.as_slice());
                assert(prefix@ =~= self@.subrange(8, 40));
            },
        }
        let short: u16 = (length % 0x1_0000) as u16;
        prefix.push(0);
        prefix.push(protocol);
        prefix.push((short / 0x100) as u8);
        prefix.push((short % 0x100) as u8);
        match self {
            Packet::V4(_) => {},
            Packet::V6(_) => {
                prefix.push(0);
                prefix.push(0);
                prefix.push(0);
                prefix.push(0);
            },
        }
        assert(prefix@ =~= pseudo_header(self is V4, self@, protocol, length as nat));
        prefix
    }
}

impl<B: AsBytesMut> Packet<B> {
    /// The bytes of the packet, to be written: header and payload, without
    /// what lies behind, which stays.
    pub fn as_mut(&mut self) -> (r: &mut [u8])
        requires
            old(self).sized(),
            old(self).total_size() <= old(self)@.len(),
        ensures
            r@ == old(self)@.take(old(self).total_size() as int),
            (*final(self))@ == final(r)@ + old(self)@.skip(old(self).total_size() as int),
    {
        match self {
            Packet::V4(packet) => packet.as_mut(),
            Packet::V6(packet) => packet.as_mut(),
        }
    }
}

impl<B: AsBytes> From<v4::Packet<B>> for Packet<B> {
    fn from(value: v4::Packet<B>) -> (r: Packet<B>) {
        Packet::V4(value)
    }
}

impl<B: AsBytes> FromSpecImpl<v4::Packet<B>> for Packet<B> {
    open spec fn obeys_from_spec() -> bool {
        true
    }

    open spec fn from_spec(value: v4::Packet<B>) -> Packet<B> {
        Packet::V4(value)
    }
}

impl<B: AsBytes> From<v6::Packet<B>> for Packet<B> {
    fn from(value: v6::Packet<B>) -> (r: Packet<B>) {
        Packet::V6(value)
    }
}

impl<B: AsBytes> FromSpecImpl<v6::Packet<B>> for Packet<B> {
    open spec fn obeys_from_spec() -> bool {
        true
    }

    open spec fn from_spec(value: v6::Packet<B>) -> Packet<B> {
        Packet::V6(value)
    }
}

impl<'a, B: AsBytes + Copy> From<&'a v4::Packet<B>> for Packet<B> {
    fn from(value: &'a v4::Packet<B>) -> (r: Packet<B>) {
        Packet::V4(*value)
    }
}

impl<'a, B: AsBytes + Copy> FromSpecImpl<&'a v4::Packet<B>> for Packet<B> {
    open spec fn obeys_from_spec() -> bool {
        true
    }

    open spec fn from_spec(value: &'a v4::Packet<B>) -> Packet<B> {
        Packet::V4(*value)
    }
}

impl<'a, B: AsBytes + Copy> From<&'a v6::Packet<B>> for Packet<B> {
    fn from(value: &'a v6::Packet<B>) -> (r: Packet<B>) {
        Packet::V6(*value)
    }
}

impl<'a, B: AsBytes + Copy> FromSpecImpl<&'a v6::Packet<B>> for Packet<B> {
    open spec fn obeys_from_spec() -> bool {
        true
    }

    open spec fn from_spec(value: &'a v6::Packet<B>) -> Packet<B> {
        Packet::V6(*value)
    }
}

impl<'a, B: AsBytes + ?Sized> AsPacket<'a, Packet<&'a [u8]>> for B {
    open spec fn readable(&self) -> bool {
        self.bytes().len() >= 1
    }

    open spec fn packet_bytes(&self) -> Seq<u8> {
        self.bytes()
    }

    open spec fn parsed(bytes: Seq<u8>) -> Result<(), Error> {
        check(bytes)
    }

    fn as_packet(&'a self) -> (r: Result<Packet<&'a [u8]>, Error>) {
        Packet::new(self.as_bytes())
    }
}

impl<'a, B: AsBytesMut + ?Sized> AsPacketMut<'a, Packet<&'a mut [u8]>> for B {
    open spec fn writable(&self) -> bool {
        self.bytes().len() >= 1
    }

    open spec fn packet_bytes_mut(&self) -> Seq<u8> {
        self.bytes()
    }

    open spec fn parsed_mut(bytes: Seq<u8>) -> Result<(), Error> {
        check(bytes)
    }

    fn as_packet_mut(&'a mut self) -> (r: Result<Packet<&'a mut [u8]>, Error>) {
        Packet::new(self.as_bytes_mut())
    }
}

impl<B: AsBytes> P for Packet<B> {
    open spec fn raw(&self) -> Seq<u8> {
        self@
    }

    open spec fn header_end(&self) -> int {
        match *self {
            Packet::V4(packet) => packet.header_end(),
            Packet::V6(packet) => packet.header_end(),
        }
    }

    open spec fn payload_end(&self) -> int {
        match *self {
            Packet::V4(packet) => packet.payload_end(),
            Packet::V6(packet) => packet.payload_end(),
        }
    }

    open spec fn splittable(&self) -> bool {
        match *self {
            Packet::V4(packet) => packet.splittable(),
            Packet::V6(packet) => packet.splittable(),
        }
    }

    proof fn lemma_split_bounds(&self) {
        match *self {
            Packet::V4(packet) => packet.lemma_split_bounds(),
            Packet::V6(packet) => packet.lemma_split_bounds(),
        }
    }

    fn split(&self) -> (r: (&[u8], &[u8])) {
        assert(self.splittable());
        assert(self.payload_end() == match *self {
            Packet::V4(packet) => packet.payload_end(),
            Packet::V6(packet) => packet.payload_end(),
        });
        assert(self.header_end() == match *self {
            Packet::V4(packet) => packet.header_end(),
            Packet::V6(packet) => packet.header_end(),
        });
        match self {
            Packet::V4(packet) => packet.split(),
            Packet::V6(packet) => packet.split(),
        }
    }
}

impl<B: AsBytesMut> PM for Packet<B> {
    fn split_mut(&mut self) -> (r: (&mut [u8], &mut [u8])) {
        assert(self.splittable());
        assert(self.payload_end() == match *self {
            Packet::V4(packet) => packet.payload_end(),
            Packet::V6(packet) => packet.payload_end(),
        });
        assert(self.header_end() == match *self {
            Packet::V4(packet) => packet.header_end(),
            Packet::V6(packet) => packet.header_end(),
        });
        match self {
            Packet::V4(packet) => packet.split_mut(),
            Packet::V6(packet) => packet.split_mut(),
        }
    }
}

impl<B: AsBytes> size::header::Size for Packet<B> {
    open spec fn header_sized(&self) -> bool {
        match *self {
            Packet::V4(packet) => packet.header_sized(),
            Packet::V6(packet) => packet.header_sized(),
        }
    }

    open spec fn header_size(&self) -> nat {
        match *self {
            Packet::V4(packet) => packet.header_size(),
            Packet::V6(packet) => packet.header_size(),
        }
    }

    fn size(&self) -> (r: usize) {
        assert(self.header_sized());
        match self {
            Packet::V4(packet) => size::header::Size::size(packet),
            Packet::V6(packet) => size::header::Size::size(packet),
        }
    }
}

impl<B: AsBytes> size::payload::Size for Packet<B> {
    open spec fn payload_sized(&self) -> bool {
        match *self {
            Packet::V4(packet) => packet.payload_sized(),
            Packet::V6(packet) => packet.payload_sized(),
        }
    }

    open spec fn payload_size(&self) -> nat {
        match *self {
            Packet::V4(packet) => packet.payload_size(),
            Packet::V6(packet) => packet.payload_size(),
        }
    }

    fn size(&self) -> (r: usize) {
        assert(self.payload_sized());
        match self {
            Packet::V4(packet) => size::payload::Size::size(packet),
            Packet::V6(packet) => size::payload::Size::size(packet),
        }
    }
}

} // verus!
