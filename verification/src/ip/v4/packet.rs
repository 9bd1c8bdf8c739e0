use vstd::prelude::*;
use crate::bytes::{to_vec, AsBytes, AsBytesMut};
use crate::checksum::internet_checksum_of;
use crate::endian::{be_bytes_u16, be_u16, overwrite, read_u16, write_bytes, write_u16};
use crate::error::Error;
use crate::ip::v4::Flags;
use crate::ip::v4::checksum;
pub use crate::ip::v4::option::OptionIter;
use crate::ip::Protocol;
use crate::packet::{AsPacket, AsPacketMut, Packet as P, PacketMut as PM};
use crate::size;

verus! {

/// IPv4 packet parser.
#[derive(Copy, Clone)]
pub struct Packet<B> {
    buffer: B,
}

/// The length of the header in bytes that the bytes announce: four times the
/// low nibble of the first byte.
pub open spec fn header_len(bytes: Seq<u8>) -> int {
    (bytes[0] & 0b1111) as int * 4
}

/// The length of the payload that the bytes announce: the total length less
/// the header, and zero where that is less than nothing.
pub open spec fn payload_len(bytes: Seq<u8>) -> int {
    if be_u16(bytes, 2) as int >= header_len(bytes) {
        be_u16(bytes, 2) as int - header_len(bytes)
    } else {
        0
    }
}

/// Where the packet ends within the bytes: behind header and payload, or
/// where the bytes end if that comes first.
pub open spec fn packet_end(bytes: Seq<u8>) -> int {
    if bytes.len() < header_len(bytes) + payload_len(bytes) {
        bytes.len() as int
    } else {
        header_len(bytes) + payload_len(bytes)
    }
}

/// What parsing without a look at the payload makes of the bytes: too few
/// for the least header, not version 4, or too few for the header announced.
pub open spec fn check_header(bytes: Seq<u8>) -> Result<(), Error> {
    if bytes.len() < 20 {
        Err(Error::SmallBuffer)
    } else if bytes[0] >> 4 != 4 {
        Err(Error::InvalidPacket)
    } else if bytes.len() < header_len(bytes) {
        Err(Error::SmallBuffer)
    } else {
        Ok(())
    }
}

/// What parsing makes of the bytes: as for the header, and too few where the
/// total length announced is more than there are.
pub open spec fn check(bytes: Seq<u8>) -> Result<(), Error> {
    if check_header(bytes) is Err {
        check_header(bytes)
    } else if bytes.len() < be_u16(bytes, 2) {
        Err(Error::SmallBuffer)
    } else {
        Ok(())
    }
}

/// What parses lies within the bytes: header and payload as they are
/// announced are no more than the bytes that there are.
pub proof fn lemma_parsed_fits(bytes: Seq<u8>)
    requires
        check(bytes) is Ok,
    ensures
        20 <= bytes.len(),
        header_len(bytes) + payload_len(bytes) <= bytes.len(),
        packet_end(bytes) == header_len(bytes) + payload_len(bytes),
{
    lemma_header_len_bounds(bytes);
}

/// The low nibble of a byte is at most 15, so a header is at most 60 bytes.
pub proof fn lemma_header_len_bounds(bytes: Seq<u8>)
    ensures
        0 <= header_len(bytes) <= 60,
        header_len(bytes) % 4 == 0,
{
    let b = bytes[0];
    assert(b & 0b1111 <= 15) by (bit_vector);
}

impl<B: AsBytes> View for Packet<B> {
    type V = Seq<u8>;

    closed spec fn view(&self) -> Seq<u8> {
        self.buffer.bytes()
    }
}

impl<B: AsBytes> AsBytes for Packet<B> {
    open spec fn bytes(&self) -> Seq<u8> {
        self@
    }

    proof fn lemma_bytes_len(&self) {
        self.buffer.lemma_bytes_len();
    }

    fn as_bytes(&self) -> (r: &[u8]) {
        self.buffer.as_bytes()
    }
}

impl<B: AsBytesMut> AsBytesMut for Packet<B> {
    fn as_bytes_mut(&mut self) -> (r: &mut [u8]) {
        self.buffer.as_bytes_mut()
    }
}

impl<B> size::header::Min for Packet<B> {
    open spec fn header_min() -> nat {
        20
    }

    fn min() -> (r: usize) {
        20
    }
}

impl<B> size::header::Max for Packet<B> {
    open spec fn header_max() -> nat {
        60
    }

    fn max() -> (r: usize) {
        60
    }
}

impl<B: AsBytes> size::header::Size for Packet<B> {
    open spec fn header_sized(&self) -> bool {
        self@.len() >= 1
    }

    open spec fn header_size(&self) -> nat {
        header_len(self@) as nat
    }

    fn size(&self) -> (r: usize) {
        proof {
            lemma_header_len_bounds(self@);
            assert(self.header_sized());
        }
        self.header() as usize * 4
    }
}

impl<B> size::payload::Min for Packet<B> {
    open spec fn payload_min() -> nat {
        0
    }

    fn min() -> (r: usize) {
        0
    }
}

impl<B> size::payload::Max for Packet<B> {
    open spec fn payload_max() -> nat {
        65475
    }

    fn max() -> (r: usize) {
        u16::MAX as usize - 60
    }
}

impl<B: AsBytes> size::payload::Size for Packet<B> {
    open spec fn payload_sized(&self) -> bool {
        self@.len() >= 4
    }

    open spec fn payload_size(&self) -> nat {
        payload_len(self@) as nat
    }

    fn size(&self) -> (r: usize) {
        proof {
            lemma_header_len_bounds(self@);
        }
        assert(self.payload_sized());
        assert(self.payload_size() == payload_len(self@));
        let length: usize = self.length() as usize;
        let header: usize = self.header() as usize * 4;
        if length >= header {
            length - header
        } else {
            0
        }
    }
}

impl<B: AsBytes> Packet<B> {
    /// Create an IPv4 packet without checking the buffer.
    pub fn unchecked(buffer: B) -> (r: Packet<B>)
        ensures
            r@ == buffer.bytes(),
    {
        Packet { buffer }
    }

    /// Parse an IPv4 packet without checking the payload.
    pub fn no_payload(buffer: B) -> (r: Result<Packet<B>, Error>)
        ensures
            match r {
                Ok(packet) => check_header(buffer.bytes()) is Ok && packet@ == buffer.bytes(),
                Err(e) => check_header(buffer.bytes()) == Err::<(), Error>(e),
            },
    {
        let packet = Packet::unchecked(buffer);
        if packet.buffer.as_bytes().len() < 20 {
            return Err(Error::SmallBuffer);
        }
        if packet.buffer.as_bytes()[0] >> 4 != 4 {
            return Err(Error::InvalidPacket);
        }
        if packet.buffer.as_bytes().len() < packet.header() as usize * 4 {
            return Err(Error::SmallBuffer);
        }
        Ok(packet)
    }

    /// Parse an IPv4 packet, checking the buffer contents are correct.
    pub fn new(buffer: B) -> (r: Result<Packet<B>, Error>)
        ensures
            match r {
                Ok(packet) => check(buffer.bytes()) is Ok && packet@ == buffer.bytes(),
                Err(e) => check(buffer.bytes()) == Err::<(), Error>(e),
            },
    {
        let packet = match Packet::no_payload(buffer) {
            Ok(packet) => packet,
            Err(e) => {
                return Err(e);
            },
        };
        if packet.buffer.as_bytes().len() < packet.length() as usize {
            return Err(Error::SmallBuffer);
        }
        Ok(packet)
    }

    /// Convert the packet to its owned version.
    pub fn to_owned(&self) -> (r: Packet<Vec<u8>>)
        ensures
            r@ == self@,
    {
        Packet::unchecked(to_vec(&self.buffer))
    }

    /// The bytes of the packet: header and payload, without what lies behind.
    pub fn as_ref(&self) -> (r: &[u8])
        requires
            self@.len() >= 4,
            header_len(self@) + payload_len(self@) <= self@.len(),
        ensures
            r@ == self@.take(header_len(self@) + payload_len(self@)),
    {
        let size: usize = size::Size::size(self);
        vstd::slice::slice_subrange(self.buffer.as_bytes(), 0, size)
    }
}

impl<B: AsBytesMut> Packet<B> {
    /// The bytes of the packet, to be written: header and payload, without
    /// what lies behind, which stays.
    pub fn as_mut(&mut self) -> (r: &mut [u8])
        requires
            old(self)@.len() >= 4,
            header_len(old(self)@) + payload_len(old(self)@) <= old(self)@.len(),
        ensures
            r@ == old(self)@.take(header_len(old(self)@) + payload_len(old(self)@)),
            (*final(self))@ == final(r)@ + old(self)@.skip(
                header_len(old(self)@) + payload_len(old(self)@),
            ),
    {
        let size: usize = size::Size::size(self);
        let (front, _) = self.buffer.as_bytes_mut().split_at_mut(size);
        front
    }
}

impl<'a, B: AsBytes + ?Sized> AsPacket<'a, Packet<&'a [u8]>> for B {
    open spec fn readable(&self) -> bool {
        true
    }

    open spec fn packet_bytes(&self) -> Seq<u8> {
        self.bytes()
    }

    open spec fn parsed(bytes: Seq<u8>) -> Result<(), Error> {
        check(bytes)
    }

    fn as_packet(&'a self) -> (r: Result<Packet<&'a [u8]>, Error>) {
        Packet::new(self.as_bytes())
    }
}

impl<'a, B: AsBytesMut + ?Sized> AsPacketMut<'a, Packet<&'a mut [u8]>> for B {
    open spec fn writable(&self) -> bool {
        true
    }

    open spec fn packet_bytes_mut(&self) -> Seq<u8> {
        self.bytes()
    }

    open spec fn parsed_mut(bytes: Seq<u8>) -> Result<(), Error> {
        check(bytes)
    }

    fn as_packet_mut(&'a mut self) -> (r: Result<Packet<&'a mut [u8]>, Error>) {
        Packet::new(self.as_bytes_mut())
    }
}

impl<B: AsBytes> P for Packet<B> {
    open spec fn raw(&self) -> Seq<u8> {
        self@
    }

    open spec fn header_end(&self) -> int {
        header_len(self@)
    }

    open spec fn payload_end(&self) -> int {
        packet_end(self@)
    }

    open spec fn splittable(&self) -> bool {
        &&& self@.len() >= 4
        &&& header_len(self@) <= self@.len()
    }

    proof fn lemma_split_bounds(&self) {
        lemma_header_len_bounds(self@);
    }

    fn split(&self) -> (r: (&[u8], &[u8])) {
        proof {
            lemma_header_len_bounds(self@);
            assert(self.splittable());
            assert(size::payload::Size::payload_sized(self));
        }
        let header: usize = self.header() as usize * 4;
        let payload: usize = size::payload::Size::size(self);
        let buffer = self.buffer.as_bytes();
        let buffer = if buffer.len() < header + payload {
            buffer
        } else {
            vstd::slice::slice_subrange(buffer, 0, header + payload)
        };
        let r = buffer.split_at(header);
        proof {
            assert(r.0@ =~= self@.subrange(0, header_len(self@)));
            assert(r.1@ =~= self@.subrange(header_len(self@), packet_end(self@)));
            assert(self.payload_end() == packet_end(self@));
        }
        r
    }
}

impl<B: AsBytesMut> PM for Packet<B> {
    fn split_mut(&mut self) -> (r: (&mut [u8], &mut [u8])) {
        proof {
            lemma_header_len_bounds(self@);
            assert(self.splittable());
            assert(size::payload::Size::payload_sized(self));
        }
        let header: usize = self.header() as usize * 4;
        let payload: usize = size::payload::Size::size(self);
        let buffer = self.buffer.as_bytes_mut();
        let end: usize = if buffer.len() < header + payload {
            buffer.len()
        } else {
            header + payload
        };
        let (front, back) = buffer.split_at_mut(end);
        let r = front.split_at_mut(header);
        proof {
            assert(r.0@ =~= old(self)@.subrange(0, header_len(old(self)@)));
            assert(r.1@ =~= old(self)@.subrange(header_len(old(self)@), packet_end(old(self)@)));
            assert(back@ =~= old(self)@.skip(packet_end(old(self)@)));
            assert(old(self).payload_end() == packet_end(old(self)@));
        }
        r
    }
}

impl<B: AsBytes> Packet<B> {
    /// IP protocol version, will always be 4.
    pub fn version(&self) -> (r: u8)
        requires
            self@.len() >= 1,
        ensures
            r == self@[0] >> 4,
    {
        self.buffer.as_bytes()[0] >> 4
    }

    /// Length of the IPv4 header in 32 bit words.
    pub fn header(&self) -> (r: u8)
        requires
            self@.len() >= 1,
        ensures
            r == self@[0] & 0b1111,
            r as int * 4 == header_len(self@),
    {
        self.buffer.as_bytes()[0] & 0b1111
    }

    /// DSCP value.
    pub fn dscp(&self) -> (r: u8)
        requires
            self@.len() >= 2,
        ensures
            r == self@[1] >> 2,
    {
        self.buffer.as_bytes()[1] >> 2
    }

    /// ECN value.
    pub fn ecn(&self) -> (r: u8)
        requires
            self@.len() >= 2,
        ensures
            r == self@[1] & 0b11,
    {
        self.buffer.as_bytes()[1] & 0b11
    }

    /// Total length of the packet in octets.
    pub fn length(&self) -> (r: u16)
        requires
            self@.len() >= 4,
        ensures
            r == be_u16(self@, 2),
    {
        read_u16(self.buffer.as_bytes(), 2)
    }

    /// ID of the packet.
    pub fn id(&self) -> (r: u16)
        requires
            self@.len() >= 6,
        ensures
            r == be_u16(self@, 4),
    {
        read_u16(self.buffer.as_bytes(), 4)
    }

    /// Flags of the packet. The reserved bit has to be clear.
    pub fn flags(&self) -> (r: Flags)
        requires
            self@.len() >= 8,
            (be_u16(self@, 6) >> 13) & 1 == 0,
        ensures
            r.bits_of() == be_u16(self@, 6) >> 13,
    {
        let word: u16 = read_u16(self.buffer.as_bytes(), 6);
        let bits: u16 = word >> 13;
        assert((word >> 13) & 1 == 0 ==> (word >> 13) & !0b110u16 == 0) by (bit_vector);
        Flags::from_bits(bits).unwrap()
    }

    /// Offset of the packet.
    pub fn offset(&self) -> (r: u16)
        requires
            self@.len() >= 8,
        ensures
            r == be_u16(self@, 6) & 0x1fff,
    {
        read_u16(self.buffer.as_bytes(), 6) & 0x1fff
    }

    /// Time to Live for the packet.
    pub fn ttl(&self) -> (r: u8)
        requires
            self@.len() >= 9,
        ensures
            r == self@[8],
    {
        self.buffer.as_bytes()[8]
    }

    /// Protocol of the inner packet.
    pub fn protocol(&self) -> (r: Protocol)
        requires
            self@.len() >= 10,
        ensures
            r == Protocol::of(self@[9]),
    {
        Protocol::from_number(self.buffer.as_bytes()[9])
    }

    /// Checksum of the packet.
    pub fn checksum(&self) -> (r: u16)
        requires
            self@.len() >= 12,
        ensures
            r == be_u16(self@, 10),
    {
        read_u16(self.buffer.as_bytes(), 10)
    }

    /// Verify the packet is valid by calculating the checksum.
    pub fn is_valid(&self) -> (r: bool)
        requires
            self@.len() >= 12,
            header_len(self@) <= self@.len(),
        ensures
            r == (internet_checksum_of(self@.subrange(0, header_len(self@)), 10) == be_u16(
                self@,
                10,
            )),
    {
        checksum(P::header(self)) == self.checksum()
    }

    /// IP options for the packet.
    pub fn options(&self) -> (r: OptionIter<'_>)
        requires
            20 <= header_len(self@) <= self@.len(),
        ensures
            r.remaining() == self@.subrange(20, header_len(self@)),
    {
        OptionIter::new(
            vstd::slice::slice_subrange(self.buffer.as_bytes(), 20, self.header() as usize * 4),
        )
    }

    /// Source IP address.
    pub fn source(&self) -> (r: [u8; 4])
        requires
            self@.len() >= 16,
        ensures
            r@ == self@.subrange(12, 16),
    {
        let bytes = self.buffer.as_bytes();
        let r: [u8; 4] = [bytes[12], bytes[13], bytes[14], bytes[15]];
        assert(r@ =~= self@.subrange(12, 16));
        r
    }

    /// Destination IP address.
    pub fn destination(&self) -> (r: [u8; 4])
        requires
            self@.len() >= 20,
        ensures
            r@ == self@.subrange(16, 20),
    {
        let bytes = self.buffer.as_bytes();
        let r: [u8; 4] = [bytes[16], bytes[17], bytes[18], bytes[19]];
        assert(r@ =~= self@.subrange(16, 20));
        r
    }
}

/// The bytes with the DSCP field set to `value`; the ECN bits stay.
pub open spec fn with_dscp(bytes: Seq<u8>, value: u8) -> Seq<u8> {
    bytes.update(1, (bytes[1] & 0b11) | (value << 2))
}

/// The bytes with the ECN field set to `value`; the DSCP bits stay.
pub open spec fn with_ecn(bytes: Seq<u8>, value: u8) -> Seq<u8> {
    bytes.update(1, (bytes[1] & 0b1111_1100) | value)
}

/// The word of flags and fragment offset with the flags replaced.
pub open spec fn flags_word(word: u16, bits: u16) -> u16 {
    (word & 0x1fff) | (bits << 13)
}

/// The word of flags and fragment offset with the offset replaced.
pub open spec fn offset_word(word: u16, value: u16) -> u16 {
    (word & 0xe000) | value
}

/// The bytes with the flags set; the fragment offset stays.
pub open spec fn with_flags(bytes: Seq<u8>, flags: Flags) -> Seq<u8> {
    overwrite(bytes, 6, be_bytes_u16(flags_word(be_u16(bytes, 6), flags.bits_of())))
}

/// The bytes with the fragment offset set; the flags stay.
pub open spec fn with_offset(bytes: Seq<u8>, value: u16) -> Seq<u8> {
    overwrite(bytes, 6, be_bytes_u16(offset_word(be_u16(bytes, 6), value)))
}

/// The bytes with the checksum of the header stored in its field.
pub open spec fn with_checksum(bytes: Seq<u8>) -> Seq<u8> {
    overwrite(
        bytes,
        10,
        be_bytes_u16(internet_checksum_of(bytes.subrange(0, header_len(bytes)), 10)),
    )
}

/// Whether the checksum stored in the header is the checksum of the header.
pub open spec fn valid(bytes: Seq<u8>) -> bool {
    internet_checksum_of(bytes.subrange(0, header_len(bytes)), 10) == be_u16(bytes, 10)
}

/// Set the DSCP field in the bytes of a header; a value of more than six
/// bits is refused.
pub fn write_dscp(bytes: &mut [u8], value: u8) -> (r: Result<(), Error>)
    requires
        value <= 0b11_1111 ==> old(bytes)@.len() >= 2,
    ensures
        match r {
            Ok(_) => value <= 0b11_1111 && final(bytes)@ == with_dscp(old(bytes)@, value),
            Err(e) => value > 0b11_1111 && e == Error::InvalidValue && final(bytes)@ == old(bytes)@,
        },
{
    if value > 0b11_1111 {
        return Err(Error::InvalidValue);
    }
    let old: u8 = bytes[1];
    bytes[1] = (old & 0b11) | (value << 2);
    Ok(())
}

/// Set the ECN field in the bytes of a header; a value of more than two bits
/// is refused.
pub fn write_ecn(bytes: &mut [u8], value: u8) -> (r: Result<(), Error>)
    requires
        value <= 0b11 ==> old(bytes)@.len() >= 2,
    ensures
        match r {
            Ok(_) => value <= 0b11 && final(bytes)@ == with_ecn(old(bytes)@, value),
            Err(e) => value > 0b11 && e == Error::InvalidValue && final(bytes)@ == old(bytes)@,
        },
{
    if value > 0b11 {
        return Err(Error::InvalidValue);
    }
    let old: u8 = bytes[1];
    bytes[1] = (old & 0b1111_1100) | value;
    Ok(())
}

/// Set the flags in the bytes of a header.
pub fn write_flags(bytes: &mut [u8], value: Flags) -> (r: Result<(), Error>)
    requires
        old(bytes)@.len() >= 8,
    ensures
        r is Ok,
        final(bytes)@ == with_flags(old(bytes)@, value),
{
    let word: u16 = read_u16(bytes, 6);
    write_u16(bytes, 6, (word & 0x1fff) | (value.bits() << 13))
}

/// Set the fragment offset in the bytes of a header; a value of more than
/// thirteen bits is refused.
pub fn write_offset(bytes: &mut [u8], value: u16) -> (r: Result<(), Error>)
    requires
        value <= 0x1fff ==> old(bytes)@.len() >= 8,
    ensures
        match r {
            Ok(_) => value <= 0x1fff && final(bytes)@ == with_offset(old(bytes)@, value),
            Err(e) => value > 0x1fff && e == Error::InvalidValue && final(bytes)@ == old(bytes)@,
        },
{
    if value > 0x1fff {
        return Err(Error::InvalidValue);
    }
    let word: u16 = read_u16(bytes, 6);
    write_u16(bytes, 6, (word & 0xe000) | value)
}

/// Calculate the checksum of the header that the bytes start with and store
/// it in its field.
pub fn write_checksum(bytes: &mut [u8]) -> (r: Result<(), Error>)
    requires
        old(bytes)@.len() >= 12,
        header_len(old(bytes)@) <= old(bytes)@.len(),
    ensures
        r is Ok,
        final(bytes)@ == with_checksum(old(bytes)@),
{
    proof {
        lemma_header_len_bounds(bytes@);
    }
    let header: usize = (bytes[0] & 0b1111) as usize * 4;
    let sum: u16 = checksum(vstd::slice::slice_subrange(bytes, 0, header));
    write_u16(bytes, 10, sum)
}

impl<B: AsBytesMut> Packet<B> {
    /// Differentiated Services Code Point.
    pub fn set_dscp(&mut self, value: u8) -> (r: Result<&mut Self, Error>)
        requires
            value <= 0b11_1111 ==> old(self)@.len() >= 2,
        ensures
            match r {
                Ok(p) => value <= 0b11_1111 && p@ == with_dscp(old(self)@, value) && *final(p)
                    == *final(self),
                Err(e) => value > 0b11_1111
                    && e == Error::InvalidValue
                    && (*final(self))@ == old(self)@,
            },
    {
        match write_dscp(self.buffer.as_bytes_mut(), value) {
            Ok(_) => Ok(self),
            Err(e) => Err(e),
        }
    }

    /// Explicit Congestion Notification.
    pub fn set_ecn(&mut self, value: u8) -> (r: Result<&mut Self, Error>)
        requires
            value <= 0b11 ==> old(self)@.len() >= 2,
        ensures
            match r {
                Ok(p) => value <= 0b11
                    && p@ == with_ecn(old(self)@, value)
                    && *final(p) == *final(self),
                Err(e) => value > 0b11 && e == Error::InvalidValue && (*final(self))@ == old(self)@,
            },
    {
        match write_ecn(self.buffer.as_bytes_mut(), value) {
            Ok(_) => Ok(self),
            Err(e) => Err(e),
        }
    }

    /// Packet ID.
    pub fn set_id(&mut self, value: u16) -> (r: Result<&mut Self, Error>)
        requires
            old(self)@.len() >= 4,
        ensures
            match r {
                Ok(p) => old(self)@.len() >= 6 && p@ == overwrite(
                    old(self)@,
                    4,
                    be_bytes_u16(value),
                ) && *final(p) == *final(self),
                Err(e) => old(self)@.len() < 6 && e == Error::Io && (*final(self))@ == overwrite(
                    old(self)@,
                    4,
                    be_bytes_u16(value),
                ),
            },
    {
        match write_u16(self.buffer.as_bytes_mut(), 4, value) {
            Ok(_) => Ok(self),
            Err(e) => Err(e),
        }
    }

    /// Packet flags.
    pub fn set_flags(&mut self, value: Flags) -> (r: Result<&mut Self, Error>)
        requires
            old(self).splittable(),
            header_len(old(self)@) >= 8,
        ensures
            match r {
                Ok(p) => p@ == with_flags(old(self)@, value) && *final(p) == *final(self),
                Err(_) => false,
            },
    {
        let header = self.header_mut();
        let _ = write_flags(header, value);
        proof {
            assert(with_flags(old(self)@.subrange(0, header_len(old(self)@)), value)
                + old(self)@.skip(header_len(old(self)@))
                =~= with_flags(old(self)@, value));
        }
        Ok(self)
    }

    /// Packet fragment offset.
    pub fn set_offset(&mut self, value: u16) -> (r: Result<&mut Self, Error>)
        requires
            old(self).splittable(),
            header_len(old(self)@) >= 8,
        ensures
            match r {
                Ok(p) => value <= 0x1fff && p@ == with_offset(old(self)@, value) && *final(p)
                    == *final(self),
                Err(e) => value > 0x1fff
                    && e == Error::InvalidValue
                    && (*final(self))@ == old(self)@,
            },
    {
        let header = self.header_mut();
        let r = write_offset(header, value);
        proof {
            assert(with_offset(old(self)@.subrange(0, header_len(old(self)@)), value)
                + old(self)@.skip(header_len(old(self)@))
                =~= with_offset(old(self)@, value));
            assert(old(self)@.subrange(0, header_len(old(self)@)) + old(self)@.skip(
                header_len(old(self)@),
            ) =~= old(self)@);
        }
        match r {
            Ok(_) => Ok(self),
            Err(e) => Err(e),
        }
    }

    /// Time to Live.
    pub fn set_ttl(&mut self, value: u8) -> (r: Result<&mut Self, Error>)
        requires
            old(self).splittable(),
            header_len(old(self)@) >= 12,
        ensures
            match r {
                Ok(p) => p@ == old(self)@.update(8, value) && *final(p) == *final(self),
                Err(_) => false,
            },
    {
        let header = self.header_mut();
        header[8] = value;
        proof {
            assert(old(self)@.subrange(0, header_len(old(self)@)).update(8, value)
                + old(self)@.skip(header_len(old(self)@))
                =~= old(self)@.update(8, value));
        }
        Ok(self)
    }

    /// Source address.
    pub fn set_source(&mut self, value: [u8; 4]) -> (r: Result<&mut Self, Error>)
        requires
            old(self).splittable(),
            header_len(old(self)@) >= 16,
        ensures
            match r {
                Ok(p) => p@ == overwrite(old(self)@, 12, value@) && *final(p) == *final(self),
                Err(_) => false,
            },
    {
        let header = self.header_mut();
        let _ = write_bytes(header, 12, value.as_slice());
        proof {
            assert(overwrite(old(self)@.subrange(0, header_len(old(self)@)), 12, value@)
                + old(self)@.skip(header_len(old(self)@))
                =~= overwrite(old(self)@, 12, value@));
        }
        Ok(self)
    }

    /// Destination address.
    pub fn set_destination(&mut self, value: [u8; 4]) -> (r: Result<&mut Self, Error>)
        requires
            old(self).splittable(),
            header_len(old(self)@) >= 20,
        ensures
            match r {
                Ok(p) => p@ == overwrite(old(self)@, 16, value@) && *final(p) == *final(self),
                Err(_) => false,
            },
    {
        let header = self.header_mut();
        let _ = write_bytes(header, 16, value.as_slice());
        proof {
            assert(overwrite(old(self)@.subrange(0, header_len(old(self)@)), 16, value@)
                + old(self)@.skip(header_len(old(self)@))
                =~= overwrite(old(self)@, 16, value@));
        }
        Ok(self)
    }

    /// Inner protocol.
    pub fn set_protocol(&mut self, value: Protocol) -> (r: Result<&mut Self, Error>)
        requires
            old(self).splittable(),
            header_len(old(self)@) >= 12,
        ensures
            match r {
                Ok(p) => p@ == old(self)@.update(9, value.number()) && *final(p) == *final(self),
                Err(_) => false,
            },
    {
        let header = self.header_mut();
        header[9] = value.into_number();
        proof {
            assert(old(self)@.subrange(0, header_len(old(self)@)).update(9, value.number())
                + old(self)@.skip(header_len(old(self)@)) =~= old(self)@.update(
                9,
                value.number(),
            ));
        }
        Ok(self)
    }

    /// Create a checksumed setter.
    pub fn checked(&mut self) -> (r: Checked<'_, B>)
        ensures
            r.packet@ == old(self)@,
            *final(r.packet) == *final(self),
    {
        Checked { packet: self }
    }

    /// Set the checksum value.
    pub fn set_checksum(&mut self, value: u16) -> (r: Result<&mut Self, Error>)
        requires
            old(self).splittable(),
            header_len(old(self)@) >= 12,
        ensures
            match r {
                Ok(p) => p@ == overwrite(old(self)@, 10, be_bytes_u16(value)) && *final(p)
                    == *final(self),
                Err(_) => false,
            },
    {
        let header = self.header_mut();
        let _ = write_u16(header, 10, value);
        proof {
            assert(overwrite(
                old(self)@.subrange(0, header_len(old(self)@)),
                10,
                be_bytes_u16(value),
            ) + old(self)@.skip(header_len(old(self)@)) =~= overwrite(
                old(self)@,
                10,
                be_bytes_u16(value),
            ));
        }
        Ok(self)
    }

    /// Recalculate and set the checksum value.
    pub fn update_checksum(&mut self) -> (r: Result<&mut Self, Error>)
        requires
            old(self).splittable(),
            header_len(old(self)@) >= 12,
        ensures
            match r {
                Ok(p) => p@ == with_checksum(old(self)@) && valid(p@) && *final(p) == *final(self),
                Err(_) => false,
            },
    {
        let sum: u16 = checksum(P::header(self));
        proof {
            lemma_checksum_update(self@);
        }
        self.set_checksum(sum)
    }
}

/// Once the checksum of the header is stored in its field, the packet is
/// valid; storing it again changes nothing.
pub proof fn lemma_checksum_update(bytes: Seq<u8>)
    requires
        12 <= header_len(bytes) <= bytes.len(),
    ensures
        valid(with_checksum(bytes)),
        with_checksum(with_checksum(bytes)) == with_checksum(bytes),
{
    let header = bytes.subrange(0, header_len(bytes));
    let after = with_checksum(bytes);
    crate::checksum::lemma_stored_checksum_is_valid(header, 10);
    let sum = internet_checksum_of(header, 10);
    assert(after[0] == bytes[0]);
    assert(after.subrange(0, header_len(after)) =~= overwrite(header, 10, be_bytes_u16(sum)));
    assert(be_u16(after, 10) == be_u16(overwrite(header, 10, be_bytes_u16(sum)), 10));
    assert(with_checksum(after) =~= after);
}

/// Sensitivity: where the checksum stored in the header is right, changing
/// any one byte of the header makes it wrong, as long as the header is as
/// long as before. (A change to the length of the header in the first byte
/// changes what the checksum covers, and the shorter or longer header may be
/// valid as well.)
pub proof fn lemma_validity_sensitive(bytes: Seq<u8>, i: int, v: u8)
    requires
        12 <= header_len(bytes) <= bytes.len(),
        0 <= i < header_len(bytes),
        v != bytes[i],
        header_len(bytes.update(i, v)) == header_len(bytes),
        valid(bytes),
    ensures
        !valid(bytes.update(i, v)),
{
    let header = bytes.subrange(0, header_len(bytes));
    assert(bytes.update(i, v).subrange(0, header_len(bytes)) =~= header.update(i, v));
    assert(be_u16(bytes, 10) == be_u16(header, 10));
    assert(be_u16(bytes.update(i, v), 10) == be_u16(header.update(i, v), 10));
    crate::checksum::lemma_validity_sensitive(header, 10, i, v);
}

/// Sensitivity, bit by bit: where the checksum stored in the header is
/// right, flipping any single bit of the header behind its first byte makes
/// it wrong.
pub proof fn lemma_bit_flip_invalidates(bytes: Seq<u8>, i: int, bit: u8)
    requires
        12 <= header_len(bytes) <= bytes.len(),
        1 <= i < header_len(bytes),
        bit < 8,
        valid(bytes),
    ensures
        !valid(bytes.update(i, bytes[i] ^ (1u8 << bit))),
{
    let b = bytes[i];
    assert(b ^ (1u8 << bit) != b) by (bit_vector)
        requires
            bit < 8,
    ;
    lemma_validity_sensitive(bytes, i, b ^ (1u8 << bit));
}

/// A scope of writes to a packet that ends with the checksum set right:
/// every setter writes its field at once, `finish` recalculates the checksum.
/// A scope has to be finished: one that is only let go leaves the checksum
/// as it was. For a single write the `checked_set_` functions of the view
/// open the scope and finish it in one call.
#[must_use]
pub struct Checked<'a, B: AsBytesMut> {
    pub packet: &'a mut Packet<B>,
}

impl<'a, B: AsBytesMut> Checked<'a, B> {
    /// Differentiated Services Code Point.
    pub fn set_dscp(self, value: u8) -> (r: Result<Self, Error>)
        requires
            old(self.packet).splittable(),
            header_len(old(self.packet)@) >= 12,
        ensures
            match r {
                Ok(g) => (value <= 0b11_1111)
                    && g.packet@ == with_dscp(old(self.packet)@, value)
                    && *final(g.packet) == *final(self.packet),
                Err(e) => !(value <= 0b11_1111)
                    && e == Error::InvalidValue
                    && (*final(self.packet))@ == with_checksum(old(self.packet)@),
            },
    {
        let Checked { packet } = self;
        match packet.set_dscp(value) {
            Ok(_) => Ok(Checked { packet }),
            Err(e) => {
                let _ = packet.update_checksum();
                Err(e)
            },
        }
    }

    /// Explicit Congestion Notification.
    pub fn set_ecn(self, value: u8) -> (r: Result<Self, Error>)
        requires
            old(self.packet).splittable(),
            header_len(old(self.packet)@) >= 12,
        ensures
            match r {
                Ok(g) => (value <= 0b11)
                    && g.packet@ == with_ecn(old(self.packet)@, value)
                    && *final(g.packet) == *final(self.packet),
                Err(e) => !(value <= 0b11)
                    && e == Error::InvalidValue
                    && (*final(self.packet))@ == with_checksum(old(self.packet)@),
            },
    {
        let Checked { packet } = self;
        match packet.set_ecn(value) {
            Ok(_) => Ok(Checked { packet }),
            Err(e) => {
                let _ = packet.update_checksum();
                Err(e)
            },
        }
    }

    /// Packet ID.
    pub fn set_id(self, value: u16) -> (r: Result<Self, Error>)
        requires
            old(self.packet).splittable(),
            header_len(old(self.packet)@) >= 12,
        ensures
            match r {
                Ok(g) => g.packet@ == overwrite(old(self.packet)@, 4, be_bytes_u16(value))
                    && *final(g.packet) == *final(self.packet),
                Err(_) => false,
            },
    {
        let Checked { packet } = self;
        match packet.set_id(value) {
            Ok(_) => Ok(Checked { packet }),
            Err(e) => {
                let _ = packet.update_checksum();
                Err(e)
            },
        }
    }

    /// Packet flags.
    pub fn set_flags(self, value: Flags) -> (r: Result<Self, Error>)
        requires
            old(self.packet).splittable(),
            header_len(old(self.packet)@) >= 12,
        ensures
            match r {
                Ok(g) => g.packet@ == with_flags(old(self.packet)@, value)
                    && *final(g.packet) == *final(self.packet),
                Err(_) => false,
            },
    {
        let Checked { packet } = self;
        match packet.set_flags(value) {
            Ok(_) => Ok(Checked { packet }),
            Err(e) => {
                let _ = packet.update_checksum();
                Err(e)
            },
        }
    }

    /// Packet fragment offset.
    pub fn set_offset(self, value: u16) -> (r: Result<Self, Error>)
        requires
            old(self.packet).splittable(),
            header_len(old(self.packet)@) >= 12,
        ensures
            match r {
                Ok(g) => (value <= 0x1fff)
                    && g.packet@ == with_offset(old(self.packet)@, value)
                    && *final(g.packet) == *final(self.packet),
                Err(e) => !(value <= 0x1fff)
                    && e == Error::InvalidValue
                    && (*final(self.packet))@ == with_checksum(old(self.packet)@),
            },
    {
        let Checked { packet } = self;
        match packet.set_offset(value) {
            Ok(_) => Ok(Checked { packet }),
            Err(e) => {
                let _ = packet.update_checksum();
                Err(e)
            },
        }
    }

    /// Time to Live.
    pub fn set_ttl(self, value: u8) -> (r: Result<Self, Error>)
        requires
            old(self.packet).splittable(),
            header_len(old(self.packet)@) >= 12,
        ensures
            match r {
                Ok(g) => g.packet@ == old(self.packet)@.update(8, value)
                    && *final(g.packet) == *final(self.packet),
                Err(_) => false,
            },
    {
        let Checked { packet } = self;
        match packet.set_ttl(value) {
            Ok(_) => Ok(Checked { packet }),
            Err(e) => {
                let _ = packet.update_checksum();
                Err(e)
            },
        }
    }

    /// Source address.
    pub fn set_source(self, value: [u8; 4]) -> (r: Result<Self, Error>)
        requires
            old(self.packet).splittable(),
            header_len(old(self.packet)@) >= 16,
        ensures
            match r {
                Ok(g) => g.packet@ == overwrite(old(self.packet)@, 12, value@)
                    && *final(g.packet) == *final(self.packet),
                Err(_) => false,
            },
    {
        let Checked { packet } = self;
        match packet.set_source(value) {
            Ok(_) => Ok(Checked { packet }),
            Err(e) => {
                let _ = packet.update_checksum();
                Err(e)
            },
        }
    }

    /// Destination address.
    pub fn set_destination(self, value: [u8; 4]) -> (r: Result<Self, Error>)
        requires
            old(self.packet).splittable(),
            header_len(old(self.packet)@) >= 20,
        ensures
            match r {
                Ok(g) => g.packet@ == overwrite(old(self.packet)@, 16, value@)
                    && *final(g.packet) == *final(self.packet),
                Err(_) => false,
            },
    {
        let Checked { packet } = self;
        match packet.set_destination(value) {
            Ok(_) => Ok(Checked { packet }),
            Err(e) => {
                let _ = packet.update_checksum();
                Err(e)
            },
        }
    }

    /// Inner protocol.
    pub fn set_protocol(self, value: Protocol) -> (r: Result<Self, Error>)
        requires
            old(self.packet).splittable(),
            header_len(old(self.packet)@) >= 12,
        ensures
            match r {
                Ok(g) => g.packet@ == old(self.packet)@.update(9, value.number())
                    && *final(g.packet) == *final(self.packet),
                Err(_) => false,
            },
    {
        let Checked { packet } = self;
        match packet.set_protocol(value) {
            Ok(_) => Ok(Checked { packet }),
            Err(e) => {
                let _ = packet.update_checksum();
                Err(e)
            },
        }
    }

    /// End the scope: recalculate the checksum and store it.
    pub fn finish(self) -> (r: Result<(), Error>)
        requires
            old(self.packet).splittable(),
            header_len(old(self.packet)@) >= 12,
        ensures
            r is Ok,
            (*final(self.packet))@ == with_checksum(old(self.packet)@),
            valid((*final(self.packet))@),
    {
        let Checked { packet } = self;
        let _ = packet.update_checksum();
        Ok(())
    }
}

impl<B: AsBytesMut> Packet<B> {
    /// Differentiated Services Code Point, in a scope of its own: the field is written and the
    /// checksum recalculated at once.
    pub fn checked_set_dscp(&mut self, value: u8) -> (r: Result<&mut Self, Error>)
        requires
            old(self).splittable(),
            header_len(old(self)@) >= 12,
        ensures
            match r {
                Ok(p) => (value <= 0b11_1111)
                    && p@ == with_checksum(with_dscp(old(self)@, value))
                    && valid(p@)
                    && *final(p) == *final(self),
                Err(e) => !(value <= 0b11_1111)
                    && e == Error::InvalidValue
                    && (*final(self))@ == with_checksum(old(self)@),
            },
    {
        match self.checked().set_dscp(value) {
            Ok(scope) => {
                let _ = scope.finish();
                Ok(self)
            },
            Err(e) => Err(e),
        }
    }

    /// Explicit Congestion Notification, in a scope of its own: the field is written and the
    /// checksum recalculated at once.
    pub fn checked_set_ecn(&mut self, value: u8) -> (r: Result<&mut Self, Error>)
        requires
            old(self).splittable(),
            header_len(old(self)@) >= 12,
        ensures
            match r {
                Ok(p) => (value <= 0b11)
                    && p@ == with_checksum(with_ecn(old(self)@, value))
                    && valid(p@)
                    && *final(p) == *final(self),
                Err(e) => !(value <= 0b11)
                    && e == Error::InvalidValue
                    && (*final(self))@ == with_checksum(old(self)@),
            },
    {
        match self.checked().set_ecn(value) {
            Ok(scope) => {
                let _ = scope.finish();
                Ok(self)
            },
            Err(e) => Err(e),
        }
    }

    /// Packet ID, in a scope of its own: the field is written and the
    /// checksum recalculated at once.
    pub fn checked_set_id(&mut self, value: u16) -> (r: Result<&mut Self, Error>)
        requires
            old(self).splittable(),
            header_len(old(self)@) >= 12,
        ensures
            match r {
                Ok(p) => p@ == with_checksum(overwrite(old(self)@, 4, be_bytes_u16(value)))
                    && valid(p@)
                    && *final(p) == *final(self),
                Err(_) => false,
            },
    {
        match self.checked().set_id(value) {
            Ok(scope) => {
                let _ = scope.finish();
                Ok(self)
            },
            Err(e) => Err(e),
        }
    }

    /// Packet flags, in a scope of its own: the field is written and the
    /// checksum recalculated at once.
    pub fn checked_set_flags(&mut self, value: Flags) -> (r: Result<&mut Self, Error>)
        requires
            old(self).splittable(),
            header_len(old(self)@) >= 12,
        ensures
            match r {
                Ok(p) => p@ == with_checksum(with_flags(old(self)@, value))
                    && valid(p@)
                    && *final(p) == *final(self),
                Err(_) => false,
            },
    {
        match self.checked().set_flags(value) {
            Ok(scope) => {
                let _ = scope.finish();
                Ok(self)
            },
            Err(e) => Err(e),
        }
    }

    /// Packet fragment offset, in a scope of its own: the field is written and the
    /// checksum recalculated at once.
    pub fn checked_set_offset(&mut self, value: u16) -> (r: Result<&mut Self, Error>)
        requires
            old(self).splittable(),
            header_len(old(self)@) >= 12,
        ensures
            match r {
                Ok(p) => (value <= 0x1fff)
                    && p@ == with_checksum(with_offset(old(self)@, value))
                    && valid(p@)
                    && *final(p) == *final(self),
                Err(e) => !(value <= 0x1fff)
                    && e == Error::InvalidValue
                    && (*final(self))@ == with_checksum(old(self)@),
            },
    {
        match self.checked().set_offset(value) {
            Ok(scope) => {
                let _ = scope.finish();
                Ok(self)
            },
            Err(e) => Err(e),
        }
    }

    /// Time to Live, in a scope of its own: the field is written and the
    /// checksum recalculated at once.
    pub fn checked_set_ttl(&mut self, value: u8) -> (r: Result<&mut Self, Error>)
        requires
            old(self).splittable(),
            header_len(old(self)@) >= 12,
        ensures
            match r {
                Ok(p) => p@ == with_checksum(old(self)@.update(8, value))
                    && valid(p@)
                    && *final(p) == *final(self),
                Err(_) => false,
            },
    {
        match self.checked().set_ttl(value) {
            Ok(scope) => {
                let _ = scope.finish();
                Ok(self)
            },
            Err(e) => Err(e),
        }
    }

    /// Source address, in a scope of its own: the field is written and the
    /// checksum recalculated at once.
    pub fn checked_set_source(&mut self, value: [u8; 4]) -> (r: Result<&mut Self, Error>)
        requires
            old(self).splittable(),
            header_len(old(self)@) >= 16,
        ensures
            match r {
                Ok(p) => p@ == with_checksum(overwrite(old(self)@, 12, value@))
                    && valid(p@)
                    && *final(p) == *final(self),
                Err(_) => false,
            },
    {
        match self.checked().set_source(value) {
            Ok(scope) => {
                let _ = scope.finish();
                Ok(self)
            },
            Err(e) => Err(e),
        }
    }

    /// Destination address, in a scope of its own: the field is written and the
    /// checksum recalculated at once.
    pub fn checked_set_destination(&mut self, value: [u8; 4]) -> (r: Result<&mut Self, Error>)
        requires
            old(self).splittable(),
            header_len(old(self)@) >= 20,
        ensures
            match r {
                Ok(p) => p@ == with_checksum(overwrite(old(self)@, 16, value@))
                    && valid(p@)
                    && *final(p) == *final(self),
                Err(_) => false,
            },
    {
        match self.checked().set_destination(value) {
            Ok(scope) => {
                let _ = scope.finish();
                Ok(self)
            },
            Err(e) => Err(e),
        }
    }

    /// Inner protocol, in a scope of its own: the field is written and the
    /// checksum recalculated at once.
    pub fn checked_set_protocol(&mut self, value: Protocol) -> (r: Result<&mut Self, Error>)
        requires
            old(self).splittable(),
            header_len(old(self)@) >= 12,
        ensures
            match r {
                Ok(p) => p@ == with_checksum(old(self)@.update(9, value.number()))
                    && valid(p@)
                    && *final(p) == *final(self),
                Err(_) => false,
            },
    {
        match self.checked().set_protocol(value) {
            Ok(scope) => {
                let _ = scope.finish();
                Ok(self)
            },
            Err(e) => Err(e),
        }
    }
}

/// What is written to the DSCP field is read back from it, and the ECN field
/// is as before.
pub proof fn lemma_dscp_round_trip(bytes: Seq<u8>, value: u8)
    requires
        bytes.len() >= 2,
        value <= 0b11_1111,
    ensures
        with_dscp(bytes, value)[1] >> 2 == value,
        with_dscp(bytes, value)[1] & 0b11 == bytes[1] & 0b11,
{
    let b = bytes[1];
    assert(value <= 0b11_1111 ==> ((b & 0b11) | (value << 2)) >> 2 == value && ((b & 0b11) | (value
        << 2)) & 0b11 == b & 0b11) by (bit_vector);
}

/// What is written to the ECN field is read back from it, and the DSCP field
/// is as before.
pub proof fn lemma_ecn_round_trip(bytes: Seq<u8>, value: u8)
    requires
        bytes.len() >= 2,
        value <= 0b11,
    ensures
        with_ecn(bytes, value)[1] & 0b11 == value,
        with_ecn(bytes, value)[1] >> 2 == bytes[1] >> 2,
{
    let b = bytes[1];
    assert(value <= 0b11 ==> ((b & 0b1111_1100) | value) & 0b11 == value && ((b & 0b1111_1100)
        | value) >> 2 == b >> 2) by (bit_vector);
}

/// The flags that are written are read back, and the fragment offset is as
/// before.
pub proof fn lemma_flags_round_trip(bytes: Seq<u8>, flags: Flags)
    requires
        bytes.len() >= 8,
        flags.bits_of() <= 7,
    ensures
        be_u16(with_flags(bytes, flags), 6) >> 13 == flags.bits_of(),
        be_u16(with_flags(bytes, flags), 6) & 0x1fff == be_u16(bytes, 6) & 0x1fff,
{
    let word = be_u16(bytes, 6);
    let bits = flags.bits_of();
    crate::endian::lemma_u16_round_trip(bytes, 6, flags_word(word, bits));
    assert(bits <= 7 ==> ((word & 0x1fff) | (bits << 13)) >> 13 == bits && ((word & 0x1fff) | (bits
        << 13)) & 0x1fff == word & 0x1fff) by (bit_vector);
}

/// The fragment offset that is written is read back, and the flags are as
/// before.
pub proof fn lemma_offset_round_trip(bytes: Seq<u8>, value: u16)
    requires
        bytes.len() >= 8,
        value <= 0x1fff,
    ensures
        be_u16(with_offset(bytes, value), 6) & 0x1fff == value,
        be_u16(with_offset(bytes, value), 6) >> 13 == be_u16(bytes, 6) >> 13,
{
    let word = be_u16(bytes, 6);
    crate::endian::lemma_u16_round_trip(bytes, 6, offset_word(word, value));
    assert(value <= 0x1fff ==> ((word & 0xe000) | value) & 0x1fff == value && ((word & 0xe000)
        | value) >> 13 == word >> 13) by (bit_vector);
}

/// The bytes with every field of the header written, one after the other.
pub open spec fn with_fields(
    bytes: Seq<u8>,
    dscp: u8,
    ecn: u8,
    id: u16,
    flags: Flags,
    offset: u16,
    ttl: u8,
    protocol: Protocol,
    source: Seq<u8>,
    destination: Seq<u8>,
) -> Seq<u8> {
    let b0 = with_dscp(bytes, dscp);
    let b1 = with_ecn(b0, ecn);
    let b2 = overwrite(b1, 4, be_bytes_u16(id));
    let b3 = with_flags(b2, flags);
    let b4 = with_offset(b3, offset);
    let b5 = b4.update(8, ttl);
    let b6 = b5.update(9, protocol.number());
    let b7 = overwrite(b6, 12, source);
    overwrite(b7, 16, destination)
}

/// Round trip: every field of the header that is written is read back as it
/// was written, whatever was written to the other fields; the first byte,
/// the total length and the checksum are not touched.
pub proof fn lemma_round_trip(
    bytes: Seq<u8>,
    dscp: u8,
    ecn: u8,
    id: u16,
    flags: Flags,
    offset: u16,
    ttl: u8,
    protocol: Protocol,
    source: Seq<u8>,
    destination: Seq<u8>,
)
    requires
        bytes.len() >= 20,
        dscp <= 0b11_1111,
        ecn <= 0b11,
        flags.bits_of() <= 7,
        offset <= 0x1fff,
        Protocol::of(protocol.number()) == protocol,
        source.len() == 4,
        destination.len() == 4,
    ensures
        ({
            let written = with_fields(
                bytes,
                dscp,
                ecn,
                id,
                flags,
                offset,
                ttl,
                protocol,
                source,
                destination,
            );
            &&& written.len() == bytes.len()
            &&& written[1] >> 2 == dscp
            &&& written[1] & 0b11 == ecn
            &&& be_u16(written, 4) == id
            &&& be_u16(written, 6) >> 13 == flags.bits_of()
            &&& be_u16(written, 6) & 0x1fff == offset
            &&& written[8] == ttl
            &&& Protocol::of(written[9]) == protocol
            &&& written.subrange(12, 16) == source
            &&& written.subrange(16, 20) == destination
            &&& written[0] == bytes[0]
            &&& be_u16(written, 2) == be_u16(bytes, 2)
            &&& be_u16(written, 10) == be_u16(bytes, 10)
        }),
{
    let b0 = with_dscp(bytes, dscp);
    let b1 = with_ecn(b0, ecn);
    let b2 = overwrite(b1, 4, be_bytes_u16(id));
    let b3 = with_flags(b2, flags);
    let b4 = with_offset(b3, offset);
    let written = with_fields(
        bytes,
        dscp,
        ecn,
        id,
        flags,
        offset,
        ttl,
        protocol,
        source,
        destination,
    );
    lemma_dscp_round_trip(bytes, dscp);
    lemma_ecn_round_trip(b0, ecn);
    crate::endian::lemma_u16_round_trip(b1, 4, id);
    lemma_flags_round_trip(b2, flags);
    lemma_offset_round_trip(b3, offset);
    assert(written[1] == b1[1]);
    assert(be_u16(written, 6) == be_u16(b4, 6));
    assert(written.subrange(12, 16) =~= source);
    assert(written.subrange(16, 20) =~= destination);
}

} // verus!
