use vstd::prelude::*;
use vstd::std_specs::convert::FromSpecImpl;
use crate::bytes::{to_vec, AsBytes, AsBytesMut};
use crate::endian::{
    be_bytes_u16, be_bytes_u64, be_u16, be_u64, overwrite, read_u16, read_u64, write_u16,
    write_u64,
};
use crate::error::Error;
use crate::ether::Protocol;
use crate::packet::{AsPacket, AsPacketMut, Packet as P, PacketMut as PM};
use crate::size;

verus! {

/// Linux cooked capture frame parser.
pub struct Packet<B> {
    buffer: B,
}

/// What parsing makes of the bytes: too few where they are less than the
/// header.
pub open spec fn check(bytes: Seq<u8>) -> Result<(), Error> {
    if bytes.len() < 16 {
        Err(Error::SmallBuffer)
    } else {
        Ok(())
    }
}


/// Kinds of cooked capture, by who sent the frame to whom.
#[derive(Debug, PartialEq, Eq, Copy, Clone, Structural)]
pub enum PacketType {
    /// The frame was sent to us.
    LinuxSllHost,
    /// The frame was broadcast.
    LinuxSllBroadcast,
    /// The frame was multicast.
    LinuxSllMulticast,
    /// The frame was sent by somebody else to somebody else.
    LinuxSllOtherhost,
    /// The frame was sent by us.
    LinuxSllOutgoing,
}

impl PacketType {
    /// The kind that the number `value`, at most 4, stands for.
    pub open spec fn of(value: u16) -> PacketType {
        if value == 0 {
            PacketType::LinuxSllHost
        } else if value == 1 {
            PacketType::LinuxSllBroadcast
        } else if value == 2 {
            PacketType::LinuxSllMulticast
        } else if value == 3 {
            PacketType::LinuxSllOtherhost
        } else {
            PacketType::LinuxSllOutgoing
        }
    }

    /// The number that stands for the kind.
    pub open spec fn number(self) -> u16 {
        match self {
            PacketType::LinuxSllHost => 0,
            PacketType::LinuxSllBroadcast => 1,
            PacketType::LinuxSllMulticast => 2,
            PacketType::LinuxSllOtherhost => 3,
            PacketType::LinuxSllOutgoing => 4,
        }
    }

    /// The kind that a number stands for; there is none for a number above 4.
    pub fn from(value: u16) -> (r: PacketType)
        requires
            value <= 4,
        ensures
            r == PacketType::of(value),
    {
        match value {
            0 => PacketType::LinuxSllHost,
            1 => PacketType::LinuxSllBroadcast,
            2 => PacketType::LinuxSllMulticast,
            3 => PacketType::LinuxSllOtherhost,
            _ => PacketType::LinuxSllOutgoing,
        }
    }

    /// The number that stands for the kind.
    pub fn into_number(self) -> (r: u16)
        ensures
            r == self.number(),
    {
        match self {
            PacketType::LinuxSllHost => 0,
            PacketType::LinuxSllBroadcast => 1,
            PacketType::LinuxSllMulticast => 2,
            PacketType::LinuxSllOtherhost => 3,
            PacketType::LinuxSllOutgoing => 4,
        }
    }

    /// Every number up to 4 is the number of the kind that it stands for, and
    /// every kind is the one that its number stands for.
    pub proof fn lemma_number_round_trip(value: u16, kind: PacketType)
        ensures
            value <= 4 ==> PacketType::of(value).number() == value,
            PacketType::of(kind.number()) == kind,
    {
    }
}

impl From<PacketType> for u16 {
    fn from(value: PacketType) -> (r: u16) {
        value.into_number()
    }
}

impl FromSpecImpl<PacketType> for u16 {
    open spec fn obeys_from_spec() -> bool {
        true
    }

    open spec fn from_spec(value: PacketType) -> u16 {
        value.number()
    }
}

impl<B: AsBytes> View for Packet<B> {
    type V = Seq<u8>;

    closed spec fn view(&self) -> Seq<u8> {
        self.buffer.bytes()
    }
}

impl<B: AsBytes> AsBytes for Packet<B> {
    open spec fn bytes(&self) -> Seq<u8> {
        self@
    }

    proof fn lemma_bytes_len(&self) {
        self.buffer.lemma_bytes_len();
    }

    fn as_bytes(&self) -> (r: &[u8]) {
        self.buffer.as_bytes()
    }
}

impl<B: AsBytesMut> AsBytesMut for Packet<B> {
    fn as_bytes_mut(&mut self) -> (r: &mut [u8]) {
        self.buffer.as_bytes_mut()
    }
}

impl<B> size::header::Min for Packet<B> {
    open spec fn header_min() -> nat {
        16
    }

    fn min() -> (r: usize) {
        16
    }
}

impl<B> size::header::Max for Packet<B> {
    open spec fn header_max() -> nat {
        16
    }

    fn max() -> (r: usize) {
        16
    }
}

impl<B: AsBytes> size::header::Size for Packet<B> {
    open spec fn header_sized(&self) -> bool {
        true
    }

    open spec fn header_size(&self) -> nat {
        16
    }

    fn size(&self) -> (r: usize) {
        assert(self.header_sized());
        assert(self.header_size() == 16);
        16
    }
}

impl<B> size::payload::Min for Packet<B> {
    open spec fn payload_min() -> nat {
        0
    }

    fn min() -> (r: usize) {
        0
    }
}

impl<B> size::payload::Max for Packet<B> {
    open spec fn payload_max() -> nat {
        1484
    }

    fn max() -> (r: usize) {
        1484
    }
}

impl<B: AsBytes> size::payload::Size for Packet<B> {
    open spec fn payload_sized(&self) -> bool {
        self@.len() >= 16
    }

    open spec fn payload_size(&self) -> nat {
        (self@.len() - 16) as nat
    }

    fn size(&self) -> (r: usize) {
        assert(self.payload_sized());
        assert(self.payload_size() == (self@.len() - 16) as nat);
        self.buffer.as_bytes().len() - 16
    }
}

impl<B: AsBytes> Packet<B> {
    /// Create an SLL frame without checking the buffer.
    pub fn unchecked(buffer: B) -> (r: Packet<B>)
        ensures
            r@ == buffer.bytes(),
    {
        Packet { buffer }
    }

    /// Parse an SLL frame, checking the buffer contents are correct.
    pub fn new(buffer: B) -> (r: Result<Packet<B>, Error>)
        ensures
            match r {
                Ok(packet) => check(buffer.bytes()) is Ok && packet@ == buffer.bytes(),
                Err(e) => check(buffer.bytes()) == Err::<(), Error>(e),
            },
    {
        let packet = Packet { buffer };
        if packet.buffer.as_bytes().len() < 16 {
            return Err(Error::SmallBuffer);
        }
        Ok(packet)
    }

    /// Convert the packet to its owned version.
    pub fn to_owned(&self) -> (r: Packet<Vec<u8>>)
        ensures
            r@ == self@,
    {
        Packet { buffer: to_vec(&self.buffer) }
    }

    /// The bytes of the packet: header and payload, without what lies behind.
    pub fn as_ref(&self) -> (r: &[u8])
        requires
            self@.len() >= 16,
        ensures
            r@ == self@.take(self@.len() as int),
    {
        proof {
            self.lemma_bytes_len();
            assert(size::header::Size::header_sized(self));
            assert(size::payload::Size::payload_sized(self));
        }
        let size: usize = size::Size::size(self);
        vstd::slice::slice_subrange(self.buffer.as_bytes(), 0, size)
    }
}

impl<B: AsBytesMut> Packet<B> {
    /// The bytes of the packet, to be written: header and payload, without
    /// what lies behind, which stays.
    pub fn as_mut(&mut self) -> (r: &mut [u8])
        requires
            old(self)@.len() >= 16,
        ensures
            r@ == old(self)@.take(old(self)@.len() as int),
            (*final(self))@ == final(r)@ + old(self)@.skip(old(self)@.len() as int),
    {
        proof {
            self.lemma_bytes_len();
            assert(size::header::Size::header_sized(self));
            assert(size::payload::Size::payload_sized(self));
        }
        let size: usize = size::Size::size(self);
        let (front, _) = self.buffer.as_bytes_mut().split_at_mut(size);
        front
    }
}

impl<B: AsBytes> P for Packet<B> {
    open spec fn raw(&self) -> Seq<u8> {
        self@
    }

    open spec fn header_end(&self) -> int {
        16
    }

    open spec fn payload_end(&self) -> int {
        self@.len() as int
    }

    open spec fn splittable(&self) -> bool {
        self@.len() >= 16
    }

    proof fn lemma_split_bounds(&self) {
    }

    fn split(&self) -> (r: (&[u8], &[u8])) {
        assert(self.splittable());
        let r = self.buffer.as_bytes().split_at(16);
        assert(self.payload_end() == self@.len());
        r
    }
}

impl<B: AsBytesMut> PM for Packet<B> {
    fn split_mut(&mut self) -> (r: (&mut [u8], &mut [u8])) {
        assert(self.splittable());
        let r = self.buffer.as_bytes_mut().split_at_mut(16);
        proof {
            assert(old(self).payload_end() == old(self)@.len());
            assert(old(self)@.skip(old(self)@.len() as int) =~= Seq::<u8>::empty());
        }
        r
    }
}

impl<B: AsBytes> Packet<B> {
    /// Kind of capture: who sent the frame to whom. The number in the frame
    /// has to be one that stands for a kind.
    pub fn packet_type(&self) -> (r: PacketType)
        requires
            self@.len() >= 2,
            be_u16(self@, 0) <= 4,
        ensures
            r == PacketType::of(be_u16(self@, 0)),
    {
        PacketType::from(read_u16(self.buffer.as_bytes(), 0))
    }

    /// Kind of link layer that the address is of.
    pub fn ll_address_type(&self) -> (r: u16)
        requires
            self@.len() >= 4,
        ensures
            r == be_u16(self@, 2),
    {
        read_u16(self.buffer.as_bytes(), 2)
    }

    /// Length of the link layer address.
    pub fn ll_address_length(&self) -> (r: u16)
        requires
            self@.len() >= 6,
        ensures
            r == be_u16(self@, 4),
    {
        read_u16(self.buffer.as_bytes(), 4)
    }

    /// The eight bytes that hold the link layer address.
    pub fn unused(&self) -> (r: u64)
        requires
            self@.len() >= 14,
        ensures
            r == be_u64(self@, 6),
    {
        read_u64(self.buffer.as_bytes(), 6)
    }

    /// Protocol of the inner packet.
    pub fn protocol(&self) -> (r: Protocol)
        requires
            self@.len() >= 16,
        ensures
            r == Protocol::of(be_u16(self@, 14)),
    {
        Protocol::from_number(read_u16(self.buffer.as_bytes(), 14))
    }
}

impl<B: AsBytesMut> Packet<B> {
    /// Kind of capture.
    pub fn set_packet_type(&mut self, value: PacketType) -> (r: Result<&mut Self, Error>)
        ensures
            match r {
                Ok(p) => old(self)@.len() >= 2
                    && p@ == overwrite(old(self)@, 0, be_bytes_u16(value.number()))
                    && *final(p) == *final(self),
                Err(e) => old(self)@.len() < 2
                    && e == Error::Io
                    && (*final(self))@ == overwrite(old(self)@, 0, be_bytes_u16(value.number())),
            },
    {
        let bytes = self.buffer.as_bytes_mut();
        match write_u16(bytes, 0, value.into_number()) {
            Ok(_) => Ok(self),
            Err(e) => Err(e),
        }
    }

    /// Kind of link layer that the address is of.
    pub fn set_ll_address_type(&mut self, value: u16) -> (r: Result<&mut Self, Error>)
        requires
            old(self)@.len() >= 2,
        ensures
            match r {
                Ok(p) => old(self)@.len() >= 4
                    && p@ == overwrite(old(self)@, 2, be_bytes_u16(value))
                    && *final(p) == *final(self),
                Err(e) => old(self)@.len() < 4
                    && e == Error::Io
                    && (*final(self))@ == overwrite(old(self)@, 2, be_bytes_u16(value)),
            },
    {
        let bytes = self.buffer.as_bytes_mut();
        match write_u16(bytes, 2, value) {
            Ok(_) => Ok(self),
            Err(e) => Err(e),
        }
    }

    /// Length of the link layer address.
    pub fn set_ll_address_length(&mut self, value: u16) -> (r: Result<&mut Self, Error>)
        requires
            old(self)@.len() >= 4,
        ensures
            match r {
                Ok(p) => old(self)@.len() >= 6
                    && p@ == overwrite(old(self)@, 4, be_bytes_u16(value))
                    && *final(p) == *final(self),
                Err(e) => old(self)@.len() < 6
                    && e == Error::Io
                    && (*final(self))@ == overwrite(old(self)@, 4, be_bytes_u16(value)),
            },
    {
        let bytes = self.buffer.as_bytes_mut();
        match write_u16(bytes, 4, value) {
            Ok(_) => Ok(self),
            Err(e) => Err(e),
        }
    }

    /// The eight bytes that hold the link layer address.
    pub fn set_unused(&mut self, value: u64) -> (r: Result<&mut Self, Error>)
        requires
            old(self)@.len() >= 6,
        ensures
            match r {
                Ok(p) => old(self)@.len() >= 14
                    && p@ == overwrite(old(self)@, 6, be_bytes_u64(value))
                    && *final(p) == *final(self),
                Err(e) => old(self)@.len() < 14
                    && e == Error::Io
                    && (*final(self))@ == overwrite(old(self)@, 6, be_bytes_u64(value)),
            },
    {
        let bytes = self.buffer.as_bytes_mut();
        match write_u64(bytes, 6, value) {
            Ok(_) => Ok(self),
            Err(e) => Err(e),
        }
    }

    /// Inner protocol.
    pub fn set_protocol(&mut self, value: Protocol) -> (r: Result<&mut Self, Error>)
        requires
            old(self)@.len() >= 14,
        ensures
            match r {
                Ok(p) => old(self)@.len() >= 16
                    && p@ == overwrite(old(self)@, 14, be_bytes_u16(value.number()))
                    && *final(p) == *final(self),
                Err(e) => old(self)@.len() < 16
                    && e == Error::Io
                    && (*final(self))@ == overwrite(old(self)@, 14, be_bytes_u16(value.number())),
            },
    {
        let bytes = self.buffer.as_bytes_mut();
        match write_u16(bytes, 14, value.into_number()) {
            Ok(_) => Ok(self),
            Err(e) => Err(e),
        }
    }
}

/// The bytes with every field written, one after the other.
pub open spec fn with_fields(
    bytes: Seq<u8>,
    packet_type: PacketType,
    ll_address_type: u16,
    ll_address_length: u16,
    unused: u64,
    protocol: Protocol,
) -> Seq<u8> {
    let b0 = overwrite(bytes, 0, be_bytes_u16(packet_type.number()));
    let b1 = overwrite(b0, 2, be_bytes_u16(ll_address_type));
    let b2 = overwrite(b1, 4, be_bytes_u16(ll_address_length));
    let b3 = overwrite(b2, 6, be_bytes_u64(unused));
    let b4 = overwrite(b3, 14, be_bytes_u16(protocol.number()));
    b4
}

/// Round trip: every field that is written is read back as it was written,
/// whatever was written to the other fields.
pub proof fn lemma_round_trip(
    bytes: Seq<u8>,
    packet_type: PacketType,
    ll_address_type: u16,
    ll_address_length: u16,
    unused: u64,
    protocol: Protocol,
)
    requires
        bytes.len() >= 16,
        PacketType::of(packet_type.number()) == packet_type,
        Protocol::of(protocol.number()) == protocol,
    ensures
        ({
            let written = with_fields(
                bytes,
                packet_type,
                ll_address_type,
                ll_address_length,
                unused,
                protocol,
            );
            &&& written.len() == bytes.len()
            &&& PacketType::of(be_u16(written, 0)) == packet_type
            &&& be_u16(written, 2) == ll_address_type
            &&& be_u16(written, 4) == ll_address_length
            &&& be_u64(written, 6) == unused
            &&& Protocol::of(be_u16(written, 14)) == protocol
        }),
{
    let written = with_fields(
        bytes,
        packet_type,
        ll_address_type,
        ll_address_length,
        unused,
        protocol,
    );
    crate::endian::lemma_u16_round_trip(bytes, 0, packet_type.number());
    crate::endian::lemma_u16_round_trip(bytes, 2, ll_address_type);
    crate::endian::lemma_u16_round_trip(bytes, 4, ll_address_length);
    crate::endian::lemma_u64_round_trip(bytes, 6, unused);
    crate::endian::lemma_u16_round_trip(bytes, 14, protocol.number());
}

impl<'a, B: AsBytes + ?Sized> AsPacket<'a, Packet<&'a [u8]>> for B {
    open spec fn readable(&self) -> bool {
        true
    }

    open spec fn packet_bytes(&self) -> Seq<u8> {
        self.bytes()
    }

    open spec fn parsed(bytes: Seq<u8>) -> Result<(), Error> {
        check(bytes)
    }

    fn as_packet(&'a self) -> (r: Result<Packet<&'a [u8]>, Error>) {
        Packet::new(self.as_bytes())
    }
}

impl<'a, B: AsBytesMut + ?Sized> AsPacketMut<'a, Packet<&'a mut [u8]>> for B {
    open spec fn writable(&self) -> bool {
        true
    }

    open spec fn packet_bytes_mut(&self) -> Seq<u8> {
        self.bytes()
    }

    open spec fn parsed_mut(bytes: Seq<u8>) -> Result<(), Error> {
        check(bytes)
    }

    fn as_packet_mut(&'a mut self) -> (r: Result<Packet<&'a mut [u8]>, Error>) {
        Packet::new(self.as_bytes_mut())
    }
}

} // verus!
