use vstd::prelude::*;
use hwaddr::HwAddr;
use crate::bytes::{to_vec, AsBytes, AsBytesMut};
use crate::endian::{be_bytes_u16, be_u16, overwrite, read_u16, write_bytes, write_u16};
use crate::error::Error;
use crate::hw::{from_octets, octets, octets_of};
use crate::packet::{AsPacket, AsPacketMut, Packet as P, PacketMut as PM};
use crate::size;

verus! {

/// ARP packet parser.
pub struct Packet<B> {
    buffer: B,
}

/// What parsing makes of the bytes: too few where they are less than the
/// header.
pub open spec fn check(bytes: Seq<u8>) -> Result<(), Error> {
    if bytes.len() < 28 {
        Err(Error::SmallBuffer)
    } else {
        Ok(())
    }
}

impl<B: AsBytes> View for Packet<B> {
    type V = Seq<u8>;

    closed spec fn view(&self) -> Seq<u8> {
        self.buffer.bytes()
    }
}

impl<B: AsBytes> AsBytes for Packet<B> {
    open spec fn bytes(&self) -> Seq<u8> {
        self@
    }

    proof fn lemma_bytes_len(&self) {
        self.buffer.lemma_bytes_len();
    }

    fn as_bytes(&self) -> (r: &[u8]) {
        self.buffer.as_bytes()
    }
}

impl<B: AsBytesMut> AsBytesMut for Packet<B> {
    fn as_bytes_mut(&mut self) -> (r: &mut [u8]) {
        self.buffer.as_bytes_mut()
    }
}

impl<B> size::header::Min for Packet<B> {
    open spec fn header_min() -> nat {
        28
    }

    fn min() -> (r: usize) {
        28
    }
}

impl<B> size::header::Max for Packet<B> {
    open spec fn header_max() -> nat {
        28
    }

    fn max() -> (r: usize) {
        28
    }
}

impl<B: AsBytes> size::header::Size for Packet<B> {
    open spec fn header_sized(&self) -> bool {
        true
    }

    open spec fn header_size(&self) -> nat {
        28
    }

    fn size(&self) -> (r: usize) {
        assert(self.header_sized());
        assert(self.header_size() == 28);
        28
    }
}

impl<B> size::payload::Min for Packet<B> {
    open spec fn payload_min() -> nat {
        0
    }

    fn min() -> (r: usize) {
        0
    }
}

impl<B> size::payload::Max for Packet<B> {
    open spec fn payload_max() -> nat {
        18
    }

    fn max() -> (r: usize) {
        18
    }
}

impl<B: AsBytes> size::payload::Size for Packet<B> {
    open spec fn payload_sized(&self) -> bool {
        self@.len() >= 28
    }

    open spec fn payload_size(&self) -> nat {
        (self@.len() - 28) as nat
    }

    fn size(&self) -> (r: usize) {
        assert(self.payload_sized());
        assert(self.payload_size() == (self@.len() - 28) as nat);
        self.buffer.as_bytes().len() - 28
    }
}

impl<B: AsBytes> Packet<B> {
    /// Create an ARP packet without checking the buffer.
    pub fn unchecked(buffer: B) -> (r: Packet<B>)
        ensures
            r@ == buffer.bytes(),
    {
        Packet { buffer }
    }

    /// Parse an ARP packet, checking the buffer contents are correct.
    pub fn new(buffer: B) -> (r: Result<Packet<B>, Error>)
        ensures
            match r {
                Ok(packet) => check(buffer.bytes()) is Ok && packet@ == buffer.bytes(),
                Err(e) => check(buffer.bytes()) == Err::<(), Error>(e),
            },
    {
        let packet = Packet { buffer };
        if packet.buffer.as_bytes().len() < 28 {
            return Err(Error::SmallBuffer);
        }
        Ok(packet)
    }

    /// Convert the packet to its owned version.
    pub fn to_owned(&self) -> (r: Packet<Vec<u8>>)
        ensures
            r@ == self@,
    {
        Packet { buffer: to_vec(&self.buffer) }
    }

    /// The bytes of the packet: header and payload, without what lies behind.
    pub fn as_ref(&self) -> (r: &[u8])
        requires
            self@.len() >= 28,
        ensures
            r@ == self@.take(self@.len() as int),
    {
        proof {
            self.lemma_bytes_len();
            assert(size::header::Size::header_sized(self));
            assert(size::payload::Size::payload_sized(self));
        }
        let size: usize = size::Size::size(self);
        vstd::slice::slice_subrange(self.buffer.as_bytes(), 0, size)
    }
}

impl<B: AsBytesMut> Packet<B> {
    /// The bytes of the packet, to be written: header and payload, without
    /// what lies behind, which stays.
    pub fn as_mut(&mut self) -> (r: &mut [u8])
        requires
            old(self)@.len() >= 28,
        ensures
            r@ == old(self)@.take(old(self)@.len() as int),
            (*final(self))@ == final(r)@ + old(self)@.skip(old(self)@.len() as int),
    {
        proof {
            self.lemma_bytes_len();
            assert(size::header::Size::header_sized(self));
            assert(size::payload::Size::payload_sized(self));
        }
        let size: usize = size::Size::size(self);
        let (front, _) = self.buffer.as_bytes_mut().split_at_mut(size);
        front
    }
}

impl<B: AsBytes> P for Packet<B> {
    open spec fn raw(&self) -> Seq<u8> {
        self@
    }

    open spec fn header_end(&self) -> int {
        28
    }

    open spec fn payload_end(&self) -> int {
        self@.len() as int
    }

    open spec fn splittable(&self) -> bool {
        self@.len() >= 28
    }

    proof fn lemma_split_bounds(&self) {
    }

    fn split(&self) -> (r: (&[u8], &[u8])) {
        assert(self.splittable());
        let r = self.buffer.as_bytes().split_at(28);
        assert(self.payload_end() == self@.len());
        r
    }
}

impl<B: AsBytesMut> PM for Packet<B> {
    fn split_mut(&mut self) -> (r: (&mut [u8], &mut [u8])) {
        assert(self.splittable());
        let r = self.buffer.as_bytes_mut().split_at_mut(28);
        proof {
            assert(old(self).payload_end() == old(self)@.len());
            assert(old(self)@.skip(old(self)@.len() as int) =~= Seq::<u8>::empty());
        }
        r
    }
}

impl<B: AsBytes> Packet<B> {
    /// Kind of link layer that the addresses are of.
    pub fn hardware_type(&self) -> (r: u16)
        requires
            self@.len() >= 2,
        ensures
            r == be_u16(self@, 0),
    {
        read_u16(self.buffer.as_bytes(), 0)
    }

    /// Kind of network protocol that the addresses are of.
    pub fn protocol_type(&self) -> (r: u16)
        requires
            self@.len() >= 4,
        ensures
            r == be_u16(self@, 2),
    {
        read_u16(self.buffer.as_bytes(), 2)
    }

    /// Length of a hardware address.
    pub fn hardware_address_length(&self) -> (r: u8)
        requires
            self@.len() > 4,
        ensures
            r == self@[4],
    {
        self.buffer.as_bytes()[4]
    }

    /// Length of a protocol address.
    pub fn protocol_address_length(&self) -> (r: u8)
        requires
            self@.len() > 5,
        ensures
            r == self@[5],
    {
        self.buffer.as_bytes()[5]
    }

    /// What the sender is doing: asking or answering.
    pub fn operation(&self) -> (r: u16)
        requires
            self@.len() >= 8,
        ensures
            r == be_u16(self@, 6),
    {
        read_u16(self.buffer.as_bytes(), 6)
    }

    /// Hardware address of the sender.
    pub fn sender_hardware_address(&self) -> (r: HwAddr)
        requires
            self@.len() >= 14,
        ensures
            octets_of(r) == self@.subrange(8, 14),
    {
        let r = from_octets(vstd::slice::slice_subrange(self.buffer.as_bytes(), 8, 14));
        assert(self@.subrange(8, 14).take(6) =~= self@.subrange(8, 14));
        r
    }

    /// Protocol address of the sender.
    pub fn sender_protocol_address(&self) -> (r: [u8; 4])
        requires
            self@.len() >= 18,
        ensures
            r@ == self@.subrange(14, 18),
    {
        let bytes = self.buffer.as_bytes();
        let r: [u8; 4] = [bytes[14], bytes[15], bytes[16], bytes[17]];
        assert(r@ =~= self@.subrange(14, 18));
        r
    }

    /// Hardware address of the target.
    pub fn target_hardware_address(&self) -> (r: HwAddr)
        requires
            self@.len() >= 24,
        ensures
            octets_of(r) == self@.subrange(18, 24),
    {
        let r = from_octets(vstd::slice::slice_subrange(self.buffer.as_bytes(), 18, 24));
        assert(self@.subrange(18, 24).take(6) =~= self@.subrange(18, 24));
        r
    }

    /// Protocol address of the target.
    pub fn target_protocol_address(&self) -> (r: [u8; 4])
        requires
            self@.len() >= 28,
        ensures
            r@ == self@.subrange(24, 28),
    {
        let bytes = self.buffer.as_bytes();
        let r: [u8; 4] = [bytes[24], bytes[25], bytes[26], bytes[27]];
        assert(r@ =~= self@.subrange(24, 28));
        r
    }
}

impl<B: AsBytesMut> Packet<B> {
    /// Kind of link layer that the addresses are of.
    pub fn set_hardware_type(&mut self, value: u16) -> (r: Result<&mut Self, Error>)
        requires
            old(self).splittable(),
        ensures
            match r {
                Ok(p) => p@ == overwrite(old(self)@, 0, be_bytes_u16(value))
                    && *final(p) == *final(self),
                Err(_) => false,
            },
    {
        let bytes = self.header_mut();
        let _ = write_u16(bytes, 0, value);
        proof {
            assert(overwrite(old(self)@.subrange(0, 28), 0, be_bytes_u16(value))
                + old(self)@.skip(28)
                =~= overwrite(old(self)@, 0, be_bytes_u16(value)));
        }
        Ok(self)
    }

    /// Kind of network protocol that the addresses are of.
    pub fn set_protocol_type(&mut self, value: u16) -> (r: Result<&mut Self, Error>)
        requires
            old(self).splittable(),
        ensures
            match r {
                Ok(p) => p@ == overwrite(old(self)@, 2, be_bytes_u16(value))
                    && *final(p) == *final(self),
                Err(_) => false,
            },
    {
        let bytes = self.header_mut();
        let _ = write_u16(bytes, 2, value);
        proof {
            assert(overwrite(old(self)@.subrange(0, 28), 2, be_bytes_u16(value))
                + old(self)@.skip(28)
                =~= overwrite(old(self)@, 2, be_bytes_u16(value)));
        }
        Ok(self)
    }

    /// Length of a hardware address.
    pub fn set_hardware_address_length(&mut self, value: u8) -> (r: Result<&mut Self, Error>)
        requires
            old(self).splittable(),
        ensures
            match r {
                Ok(p) => p@ == old(self)@.update(4, value) && *final(p) == *final(self),
                Err(_) => false,
            },
    {
        let bytes = self.header_mut();
        bytes[4] = value;
        proof {
            assert(old(self)@.subrange(0, 28).update(4, value) + old(self)@.skip(28)
                =~= old(self)@.update(4, value));
        }
        Ok(self)
    }

    /// Length of a protocol address.
    pub fn set_protocol_address_length(&mut self, value: u8) -> (r: Result<&mut Self, Error>)
        requires
            old(self).splittable(),
        ensures
            match r {
                Ok(p) => p@ == old(self)@.update(5, value) && *final(p) == *final(self),
                Err(_) => false,
            },
    {
        let bytes = self.header_mut();
        bytes[5] = value;
        proof {
            assert(old(self)@.subrange(0, 28).update(5, value) + old(self)@.skip(28)
                =~= old(self)@.update(5, value));
        }
        Ok(self)
    }

    /// What the sender is doing: asking or answering.
    pub fn set_operation(&mut self, value: u16) -> (r: Result<&mut Self, Error>)
        requires
            old(self).splittable(),
        ensures
            match r {
                Ok(p) => p@ == overwrite(old(self)@, 6, be_bytes_u16(value))
                    && *final(p) == *final(self),
                Err(_) => false,
            },
    {
        let bytes = self.header_mut();
        let _ = write_u16(bytes, 6, value);
        proof {
            assert(overwrite(old(self)@.subrange(0, 28), 6, be_bytes_u16(value))
                + old(self)@.skip(28)
                =~= overwrite(old(self)@, 6, be_bytes_u16(value)));
        }
        Ok(self)
    }

    /// Hardware address of the sender.
    pub fn set_sender_hardware_address(&mut self, value: HwAddr) -> (r: Result<&mut Self, Error>)
        requires
            old(self)@.len() >= 14,
        ensures
            match r {
                Ok(p) => p@ == overwrite(old(self)@, 8, octets_of(value))
                    && *final(p) == *final(self),
                Err(_) => false,
            },
    {
        let bytes = self.buffer.as_bytes_mut();
        let _ = write_bytes(bytes, 8, octets(&value).as_slice());
        Ok(self)
    }

    /// Protocol address of the sender.
    pub fn set_sender_protocol_address(&mut self, value: [u8; 4]) -> (r: Result<&mut Self, Error>)
        requires
            old(self).splittable(),
        ensures
            match r {
                Ok(p) => p@ == overwrite(old(self)@, 14, value@) && *final(p) == *final(self),
                Err(_) => false,
            },
    {
        let bytes = self.header_mut();
        let _ = write_bytes(bytes, 14, value.as_slice());
        proof {
            assert(overwrite(old(self)@.subrange(0, 28), 14, value@) + old(self)@.skip(28)
                =~= overwrite(old(self)@, 14, value@));
        }
        Ok(self)
    }

    /// Hardware address of the target.
    pub fn set_target_hardware_address(&mut self, value: HwAddr) -> (r: Result<&mut Self, Error>)
        requires
            old(self)@.len() >= 24,
        ensures
            match r {
                Ok(p) => p@ == overwrite(old(self)@, 18, octets_of(value))
                    && *final(p) == *final(self),
                Err(_) => false,
            },
    {
        let bytes = self.buffer.as_bytes_mut();
        let _ = write_bytes(bytes, 18, octets(&value).as_slice());
        Ok(self)
    }

    /// Protocol address of the target.
    pub fn set_target_protocol_address(&mut self, value: [u8; 4]) -> (r: Result<&mut Self, Error>)
        requires
            old(self).splittable(),
        ensures
            match r {
                Ok(p) => p@ == overwrite(old(self)@, 24, value@) && *final(p) == *final(self),
                Err(_) => false,
            },
    {
        let bytes = self.header_mut();
        let _ = write_bytes(bytes, 24, value.as_slice());
        proof {
            assert(overwrite(old(self)@.subrange(0, 28), 24, value@) + old(self)@.skip(28)
                =~= overwrite(old(self)@, 24, value@));
        }
        Ok(self)
    }
}

/// The bytes with every field written, one after the other.
pub open spec fn with_fields(
    bytes: Seq<u8>,
    hardware_type: u16,
    protocol_type: u16,
    hardware_address_length: u8,
    protocol_address_length: u8,
    operation: u16,
    sender_hardware_address: HwAddr,
    sender_protocol_address: Seq<u8>,
    target_hardware_address: HwAddr,
    target_protocol_address: Seq<u8>,
) -> Seq<u8> {
    let b0 = overwrite(bytes, 0, be_bytes_u16(hardware_type));
    let b1 = overwrite(b0, 2, be_bytes_u16(protocol_type));
    let b2 = b1.update(4, hardware_address_length);
    let b3 = b2.update(5, protocol_address_length);
    let b4 = overwrite(b3, 6, be_bytes_u16(operation));
    let b5 = overwrite(b4, 8, octets_of(sender_hardware_address));
    let b6 = overwrite(b5, 14, sender_protocol_address);
    let b7 = overwrite(b6, 18, octets_of(target_hardware_address));
    let b8 = overwrite(b7, 24, target_protocol_address);
    b8
}

/// Round trip: every field that is written is read back as it was written,
/// whatever was written to the other fields.
pub proof fn lemma_round_trip(
    bytes: Seq<u8>,
    hardware_type: u16,
    protocol_type: u16,
    hardware_address_length: u8,
    protocol_address_length: u8,
    operation: u16,
    sender_hardware_address: HwAddr,
    sender_protocol_address: Seq<u8>,
    target_hardware_address: HwAddr,
    target_protocol_address: Seq<u8>,
)
    requires
        bytes.len() >= 28,
        octets_of(sender_hardware_address).len() == 6,
        sender_protocol_address.len() == 4,
        octets_of(target_hardware_address).len() == 6,
        target_protocol_address.len() == 4,
    ensures
        ({
            let written = with_fields(
                bytes,
                hardware_type,
                protocol_type,
                hardware_address_length,
                protocol_address_length,
                operation,
                sender_hardware_address,
                sender_protocol_address,
                target_hardware_address,
                target_protocol_address,
            );
            &&& written.len() == bytes.len()
            &&& be_u16(written, 0) == hardware_type
            &&& be_u16(written, 2) == protocol_type
            &&& written[4] == hardware_address_length
            &&& written[5] == protocol_address_length
            &&& be_u16(written, 6) == operation
            &&& written.subrange(8, 14) == octets_of(sender_hardware_address)
            &&& written.subrange(14, 18) == sender_protocol_address
            &&& written.subrange(18, 24) == octets_of(target_hardware_address)
            &&& written.subrange(24, 28) == target_protocol_address
        }),
{
    let written = with_fields(
        bytes,
        hardware_type,
        protocol_type,
        hardware_address_length,
        protocol_address_length,
        operation,
        sender_hardware_address,
        sender_protocol_address,
        target_hardware_address,
        target_protocol_address,
    );
    crate::endian::lemma_u16_round_trip(bytes, 0, hardware_type);
    crate::endian::lemma_u16_round_trip(bytes, 2, protocol_type);
    crate::endian::lemma_u16_round_trip(bytes, 6, operation);
    assert(written.subrange(8, 14) =~= octets_of(sender_hardware_address));
    assert(written.subrange(14, 18) =~= sender_protocol_address);
    assert(written.subrange(18, 24) =~= octets_of(target_hardware_address));
    assert(written.subrange(24, 28) =~= target_protocol_address);
}

impl<'a, B: AsBytes + ?Sized> AsPacket<'a, Packet<&'a [u8]>> for B {
    open spec fn readable(&self) -> bool {
        true
    }

    open spec fn packet_bytes(&self) -> Seq<u8> {
        self.bytes()
    }

    open spec fn parsed(bytes: Seq<u8>) -> Result<(), Error> {
        check(bytes)
    }

    fn as_packet(&'a self) -> (r: Result<Packet<&'a [u8]>, Error>) {
        Packet::new(self.as_bytes())
    }
}

impl<'a, B: AsBytesMut + ?Sized> AsPacketMut<'a, Packet<&'a mut [u8]>> for B {
    open spec fn writable(&self) -> bool {
        true
    }

    open spec fn packet_bytes_mut(&self) -> Seq<u8> {
        self.bytes()
    }

    open spec fn parsed_mut(bytes: Seq<u8>) -> Result<(), Error> {
        check(bytes)
    }

    fn as_packet_mut(&'a mut self) -> (r: Result<Packet<&'a mut [u8]>, Error>) {
        Packet::new(self.as_bytes_mut())
    }
}

} // verus!
