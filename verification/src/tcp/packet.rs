use vstd::prelude::*;
use crate::bytes::{to_vec, AsBytes, AsBytesMut};
use crate::checksum::pseudo_header_checksum_of;
use crate::endian::{
    be_bytes_u16, be_bytes_u32, be_u16, be_u32, overwrite, read_u16, read_u32, write_u16,
    write_u32,
};
use crate::error::Error;
use crate::ip::packet::pseudo_header;
use crate::ip;
use crate::packet::{AsPacket, AsPacketMut, Packet as P, PacketMut as PM};
use crate::size;
use crate::tcp::Flags;
use crate::tcp::checksum;
pub use crate::tcp::option::OptionIter;

verus! {

/// TCP packet parser.
pub struct Packet<B> {
    buffer: B,
}

/// The length of the header in bytes that the bytes announce: four times the
/// high nibble of byte 12, the data offset.
pub open spec fn header_len(bytes: Seq<u8>) -> int {
    (bytes[12] >> 4) as int * 4
}

/// What parsing makes of the bytes: too few for the least header, or too few
/// for the header announced.
pub open spec fn check(bytes: Seq<u8>) -> Result<(), Error> {
    if bytes.len() < 20 {
        Err(Error::SmallBuffer)
    } else if bytes.len() < header_len(bytes) {
        Err(Error::SmallBuffer)
    } else {
        Ok(())
    }
}

/// What parses lies within the bytes: the header as it is announced is no
/// more than the bytes that there are, and the payload is the rest of them.
pub proof fn lemma_parsed_fits(bytes: Seq<u8>)
    requires
        check(bytes) is Ok,
    ensures
        20 <= bytes.len(),
        header_len(bytes) <= bytes.len(),
{
}

/// The bytes with the flags set: the sixteen bits at byte 12 become the bits
/// of the flags, so that the data offset before them is cleared.
pub open spec fn with_flags(bytes: Seq<u8>, flags: Flags) -> Seq<u8> {
    overwrite(bytes, 12, be_bytes_u16(flags.bits_of()))
}

/// A nibble is at most 15, so a header is at most 60 bytes.
pub proof fn lemma_header_len_bounds(bytes: Seq<u8>)
    ensures
        0 <= header_len(bytes) <= 60,
        header_len(bytes) % 4 == 0,
{
    let b = bytes[12];
    assert(b >> 4 <= 15) by (bit_vector);
}

impl<B: AsBytes> View for Packet<B> {
    type V = Seq<u8>;

    closed spec fn view(&self) -> Seq<u8> {
        self.buffer.bytes()
    }
}

impl<B: AsBytes> AsBytes for Packet<B> {
    open spec fn bytes(&self) -> Seq<u8> {
        self@
    }

    proof fn lemma_bytes_len(&self) {
        self.buffer.lemma_bytes_len();
    }

    fn as_bytes(&self) -> (r: &[u8]) {
        self.buffer.as_bytes()
    }
}

impl<B: AsBytesMut> AsBytesMut for Packet<B> {
    fn as_bytes_mut(&mut self) -> (r: &mut [u8]) {
        self.buffer.as_bytes_mut()
    }
}

impl<B> size::header::Min for Packet<B> {
    open spec fn header_min() -> nat {
        20
    }

    fn min() -> (r: usize) {
        20
    }
}

impl<B> size::header::Max for Packet<B> {
    open spec fn header_max() -> nat {
        60
    }

    fn max() -> (r: usize) {
        60
    }
}

impl<B: AsBytes> size::header::Size for Packet<B> {
    open spec fn header_sized(&self) -> bool {
        self@.len() > 12
    }

    open spec fn header_size(&self) -> nat {
        header_len(self@) as nat
    }

    fn size(&self) -> (r: usize) {
        assert(self.header_sized());
        assert(self.header_size() == header_len(self@) as nat);
        proof {
            lemma_header_len_bounds(self@);
        }
        self.offset() as usize * 4
    }
}

impl<B> size::payload::Min for Packet<B> {
    open spec fn payload_min() -> nat {
        0
    }

    fn min() -> (r: usize) {
        0
    }
}

impl<B> size::payload::Max for Packet<B> {
    open spec fn payload_max() -> nat {
        65475
    }

    fn max() -> (r: usize) {
        65475
    }
}

impl<B: AsBytes> size::payload::Size for Packet<B> {
    open spec fn payload_sized(&self) -> bool {
        self@.len() > 12 && header_len(self@) <= self@.len()
    }

    open spec fn payload_size(&self) -> nat {
        (self@.len() - header_len(self@)) as nat
    }

    fn size(&self) -> (r: usize) {
        assert(self.payload_sized());
        assert(self.payload_size() == (self@.len() - header_len(self@)) as nat);
        proof {
            lemma_header_len_bounds(self@);
        }
        self.buffer.as_bytes().len() - self.offset() as usize * 4
    }
}

impl<B: AsBytes> Packet<B> {
    /// Create a TCP packet without checking the buffer.
    pub fn unchecked(buffer: B) -> (r: Packet<B>)
        ensures
            r@ == buffer.bytes(),
    {
        Packet { buffer }
    }

    /// Parse a TCP packet, checking the buffer contents are correct.
    pub fn new(buffer: B) -> (r: Result<Packet<B>, Error>)
        ensures
            match r {
                Ok(packet) => check(buffer.bytes()) is Ok && packet@ == buffer.bytes(),
                Err(e) => check(buffer.bytes()) == Err::<(), Error>(e),
            },
    {
        let packet = Packet::unchecked(buffer);
        if packet.buffer.as_bytes().len() < 20 {
            return Err(Error::SmallBuffer);
        }
        if packet.buffer.as_bytes().len() < packet.offset() as usize * 4 {
            return Err(Error::SmallBuffer);
        }
        Ok(packet)
    }

    /// Convert the packet to its owned version.
    pub fn to_owned(&self) -> (r: Packet<Vec<u8>>)
        ensures
            r@ == self@,
    {
        Packet { buffer: to_vec(&self.buffer) }
    }

    /// The bytes of the packet: header and payload, without what lies behind.
    pub fn as_ref(&self) -> (r: &[u8])
        requires
            self@.len() > 12 && header_len(self@) <= self@.len(),
        ensures
            r@ == self@.take(self@.len() as int),
    {
        proof {
            self.lemma_bytes_len();
            assert(size::header::Size::header_sized(self));
            assert(size::payload::Size::payload_sized(self));
        }
        let size: usize = size::Size::size(self);
        vstd::slice::slice_subrange(self.buffer.as_bytes(), 0, size)
    }
}

impl<B: AsBytesMut> Packet<B> {
    /// The bytes of the packet, to be written: header and payload, without
    /// what lies behind, which stays.
    pub fn as_mut(&mut self) -> (r: &mut [u8])
        requires
            old(self)@.len() > 12 && header_len(old(self)@) <= old(self)@.len(),
        ensures
            r@ == old(self)@.take(old(self)@.len() as int),
            (*final(self))@ == final(r)@ + old(self)@.skip(old(self)@.len() as int),
    {
        proof {
            self.lemma_bytes_len();
            assert(size::header::Size::header_sized(self));
            assert(size::payload::Size::payload_sized(self));
        }
        let size: usize = size::Size::size(self);
        let (front, _) = self.buffer.as_bytes_mut().split_at_mut(size);
        front
    }
}

impl<B: AsBytes> P for Packet<B> {
    open spec fn raw(&self) -> Seq<u8> {
        self@
    }

    open spec fn header_end(&self) -> int {
        header_len(self@)
    }

    open spec fn payload_end(&self) -> int {
        self@.len() as int
    }

    open spec fn splittable(&self) -> bool {
        &&& self@.len() > 12
        &&& header_len(self@) <= self@.len()
    }

    proof fn lemma_split_bounds(&self) {
        lemma_header_len_bounds(self@);
    }

    fn split(&self) -> (r: (&[u8], &[u8])) {
        proof {
            assert(self.splittable());
            lemma_header_len_bounds(self@);
        }
        let offset: usize = self.offset() as usize;
        let r = self.buffer.as_bytes().split_at(offset * 4);
        assert(self.payload_end() == self@.len());
        r
    }
}

impl<B: AsBytesMut> PM for Packet<B> {
    fn split_mut(&mut self) -> (r: (&mut [u8], &mut [u8])) {
        proof {
            assert(self.splittable());
            lemma_header_len_bounds(self@);
        }
        let offset: usize = self.offset() as usize;
        let r = self.buffer.as_bytes_mut().split_at_mut(offset * 4);
        proof {
            assert(old(self).payload_end() == old(self)@.len());
            assert(old(self)@.skip(old(self)@.len() as int) =~= Seq::<u8>::empty());
        }
        r
    }
}

impl<B: AsBytes> Packet<B> {
    /// Source port.
    pub fn source(&self) -> (r: u16)
        requires
            self@.len() >= 2,
        ensures
            r == be_u16(self@, 0),
    {
        read_u16(self.buffer.as_bytes(), 0)
    }

    /// Destination port.
    pub fn destination(&self) -> (r: u16)
        requires
            self@.len() >= 4,
        ensures
            r == be_u16(self@, 2),
    {
        read_u16(self.buffer.as_bytes(), 2)
    }

    /// Packet sequence.
    pub fn sequence(&self) -> (r: u32)
        requires
            self@.len() >= 8,
        ensures
            r == be_u32(self@, 4),
    {
        read_u32(self.buffer.as_bytes(), 4)
    }

    /// Optional acknowledgment.
    pub fn acknowledgment(&self) -> (r: u32)
        requires
            self@.len() >= 12,
        ensures
            r == be_u32(self@, 8),
    {
        read_u32(self.buffer.as_bytes(), 8)
    }

    /// Data offset.
    pub fn offset(&self) -> (r: u8)
        requires
            self@.len() > 12,
        ensures
            r == self@[12] >> 4,
            r as int * 4 == header_len(self@),
    {
        self.buffer.as_bytes()[12] >> 4
    }

    /// Packet flags.
    pub fn flags(&self) -> (r: Flags)
        requires
            self@.len() >= 14,
        ensures
            r.bits_of() == be_u16(self@, 12) & 0b1_1111_1111,
    {
        let word: u16 = read_u16(self.buffer.as_bytes(), 12);
        Flags::from_bits_truncate(word)
    }

    /// Packet window.
    pub fn window(&self) -> (r: u16)
        requires
            self@.len() >= 16,
        ensures
            r == be_u16(self@, 14),
    {
        read_u16(self.buffer.as_bytes(), 14)
    }

    /// Packet checksum.
    pub fn checksum(&self) -> (r: u16)
        requires
            self@.len() >= 18,
        ensures
            r == be_u16(self@, 16),
    {
        read_u16(self.buffer.as_bytes(), 16)
    }

    /// Verify the packet is valid by calculating the checksum.
    pub fn is_valid<I: AsBytes>(&self, ip: &ip::Packet<I>) -> (r: bool)
        requires
            self@.len() >= 18,
            addressed(ip),
        ensures
            r == valid(*ip is V4, ip@, self@),
    {
        checksum(ip, self.buffer.as_bytes()) == self.checksum()
    }

    /// Urgent pointer.
    pub fn pointer(&self) -> (r: u16)
        requires
            self@.len() >= 20,
        ensures
            r == be_u16(self@, 18),
    {
        read_u16(self.buffer.as_bytes(), 18)
    }

    /// TCP options for the packet.
    pub fn options(&self) -> (r: OptionIter<'_>)
        requires
            20 <= header_len(self@) <= self@.len(),
        ensures
            r.remaining() == self@.subrange(20, header_len(self@)),
    {
        OptionIter::new(
            vstd::slice::slice_subrange(self.buffer.as_bytes(), 20, self.offset() as usize * 4),
        )
    }
}

impl<B: AsBytesMut> Packet<B> {
    /// Source port.
    pub fn set_source(&mut self, value: u16) -> (r: Result<&mut Self, Error>)
        requires
            old(self).splittable(),
            header_len(old(self)@) >= 2,
        ensures
            match r {
                Ok(p) => p@ == overwrite(old(self)@, 0, be_bytes_u16(value))
                    && *final(p) == *final(self),
                Err(_) => false,
            },
    {
        let bytes = self.header_mut();
        let _ = write_u16(bytes, 0, value);
        proof {
            assert(overwrite(old(self)@.subrange(0, header_len(old(self)@)), 0, be_bytes_u16(value))
                + old(self)@.skip(header_len(old(self)@))
                =~= overwrite(old(self)@, 0, be_bytes_u16(value)));
        }
        Ok(self)
    }

    /// Destination port.
    pub fn set_destination(&mut self, value: u16) -> (r: Result<&mut Self, Error>)
        requires
            old(self).splittable(),
            header_len(old(self)@) >= 4,
        ensures
            match r {
                Ok(p) => p@ == overwrite(old(self)@, 2, be_bytes_u16(value))
                    && *final(p) == *final(self),
                Err(_) => false,
            },
    {
        let bytes = self.header_mut();
        let _ = write_u16(bytes, 2, value);
        proof {
            assert(overwrite(old(self)@.subrange(0, header_len(old(self)@)), 2, be_bytes_u16(value))
                + old(self)@.skip(header_len(old(self)@))
                =~= overwrite(old(self)@, 2, be_bytes_u16(value)));
        }
        Ok(self)
    }

    /// Packet sequence.
    pub fn set_sequence(&mut self, value: u32) -> (r: Result<&mut Self, Error>)
        requires
            old(self).splittable(),
            header_len(old(self)@) >= 8,
        ensures
            match r {
                Ok(p) => p@ == overwrite(old(self)@, 4, be_bytes_u32(value))
                    && *final(p) == *final(self),
                Err(_) => false,
            },
    {
        let bytes = self.header_mut();
        let _ = write_u32(bytes, 4, value);
        proof {
            assert(overwrite(old(self)@.subrange(0, header_len(old(self)@)), 4, be_bytes_u32(value))
                + old(self)@.skip(header_len(old(self)@))
                =~= overwrite(old(self)@, 4, be_bytes_u32(value)));
        }
        Ok(self)
    }

    /// Optional acknowledgment.
    pub fn set_acknowledgment(&mut self, value: u32) -> (r: Result<&mut Self, Error>)
        requires
            old(self).splittable(),
            header_len(old(self)@) >= 12,
        ensures
            match r {
                Ok(p) => p@ == overwrite(old(self)@, 8, be_bytes_u32(value))
                    && *final(p) == *final(self),
                Err(_) => false,
            },
    {
        let bytes = self.header_mut();
        let _ = write_u32(bytes, 8, value);
        proof {
            assert(overwrite(old(self)@.subrange(0, header_len(old(self)@)), 8, be_bytes_u32(value))
                + old(self)@.skip(header_len(old(self)@))
                =~= overwrite(old(self)@, 8, be_bytes_u32(value)));
        }
        Ok(self)
    }

    /// Packet flags.
    pub fn set_flags(&mut self, value: Flags) -> (r: Result<&mut Self, Error>)
        requires
            old(self).splittable(),
            header_len(old(self)@) >= 14,
        ensures
            match r {
                Ok(p) => p@ == with_flags(old(self)@, value) && *final(p) == *final(self),
                Err(_) => false,
            },
    {
        let bytes = self.header_mut();
        let _ = write_u16(bytes, 12, value.bits());
        proof {
            assert(with_flags(old(self)@.subrange(0, header_len(old(self)@)), value)
                + old(self)@.skip(
                header_len(old(self)@),
            ) =~= with_flags(old(self)@, value));
        }
        Ok(self)
    }

    /// Packet window.
    pub fn set_window(&mut self, value: u16) -> (r: Result<&mut Self, Error>)
        requires
            old(self).splittable(),
            header_len(old(self)@) >= 16,
        ensures
            match r {
                Ok(p) => p@ == overwrite(old(self)@, 14, be_bytes_u16(value))
                    && *final(p) == *final(self),
                Err(_) => false,
            },
    {
        let bytes = self.header_mut();
        let _ = write_u16(bytes, 14, value);
        proof {
            assert(overwrite(old(self)@.subrange(0, header_len(old(self)@)), 14, be_bytes_u16(value))
                + old(self)@.skip(header_len(old(self)@))
                =~= overwrite(old(self)@, 14, be_bytes_u16(value)));
        }
        Ok(self)
    }

    /// Urgent pointer.
    pub fn set_pointer(&mut self, value: u16) -> (r: Result<&mut Self, Error>)
        requires
            old(self).splittable(),
            header_len(old(self)@) >= 20,
        ensures
            match r {
                Ok(p) => p@ == overwrite(old(self)@, 18, be_bytes_u16(value))
                    && *final(p) == *final(self),
                Err(_) => false,
            },
    {
        let bytes = self.header_mut();
        let _ = write_u16(bytes, 18, value);
        proof {
            assert(overwrite(old(self)@.subrange(0, header_len(old(self)@)), 18, be_bytes_u16(value))
                + old(self)@.skip(header_len(old(self)@))
                =~= overwrite(old(self)@, 18, be_bytes_u16(value)));
        }
        Ok(self)
    }

    /// Set the checksum value.
    pub fn set_checksum(&mut self, value: u16) -> (r: Result<&mut Self, Error>)
        requires
            old(self).splittable(),
            header_len(old(self)@) >= 18,
        ensures
            match r {
                Ok(p) => p@ == overwrite(old(self)@, 16, be_bytes_u16(value))
                    && *final(p) == *final(self),
                Err(_) => false,
            },
    {
        let bytes = self.header_mut();
        let _ = write_u16(bytes, 16, value);
        proof {
            assert(overwrite(old(self)@.subrange(0, header_len(old(self)@)), 16, be_bytes_u16(value))
                + old(self)@.skip(header_len(old(self)@))
                =~= overwrite(old(self)@, 16, be_bytes_u16(value)));
        }
        Ok(self)
    }

    /// Create a checksumed setter.
    pub fn checked<'a, 'b, BI: AsBytes>(&'a mut self, ip: &'b ip::Packet<BI>) -> (r: Checked<
        'a,
        'b,
        B,
        BI,
    >)
        ensures
            r.packet@ == old(self)@,
            *final(r.packet) == *final(self),
            r.ip == ip,
    {
        Checked { packet: self, ip }
    }

    /// Recalculate and set the checksum value.
    pub fn update_checksum<BI: AsBytes>(&mut self, ip: &ip::Packet<BI>) -> (r: Result<
        &mut Self,
        Error,
    >)
        requires
            old(self).splittable(),
            header_len(old(self)@) >= 20,
            addressed(ip),
        ensures
            match r {
                Ok(p) => p@ == with_checksum(*ip is V4, ip@, old(self)@) && valid(
                    *ip is V4,
                    ip@,
                    p@,
                ) && *final(p) == *final(self),
                Err(_) => false,
            },
    {
        let sum: u16 = checksum(ip, self.buffer.as_bytes());
        proof {
            lemma_checksum_update(*ip is V4, ip@, self@);
        }
        self.set_checksum(sum)
    }

    /// Source port, in a scope of its own: the field is written and the
    /// checksum recalculated at once.
    pub fn checked_set_source<BI: AsBytes>(
        &mut self,
        ip: &ip::Packet<BI>,
        value: u16,
    ) -> (r: Result<&mut Self, Error>)
        requires
            old(self).splittable(),
            header_len(old(self)@) >= 20,
            addressed(ip),
        ensures
            match r {
                Ok(p) => p@
                    == with_checksum(*ip is V4, ip@, overwrite(old(self)@, 0, be_bytes_u16(value)))
                    && valid(*ip is V4, ip@, p@)
                    && *final(p) == *final(self),
                Err(_) => false,
            },
    {
        match self.checked(ip).set_source(value) {
            Ok(scope) => {
                let _ = scope.finish();
                Ok(self)
            },
            Err(e) => Err(e),
        }
    }

    /// Destination port, in a scope of its own: the field is written and the
    /// checksum recalculated at once.
    pub fn checked_set_destination<BI: AsBytes>(
        &mut self,
        ip: &ip::Packet<BI>,
        value: u16,
    ) -> (r: Result<&mut Self, Error>)
        requires
            old(self).splittable(),
            header_len(old(self)@) >= 20,
            addressed(ip),
        ensures
            match r {
                Ok(p) => p@
                    == with_checksum(*ip is V4, ip@, overwrite(old(self)@, 2, be_bytes_u16(value)))
                    && valid(*ip is V4, ip@, p@)
                    && *final(p) == *final(self),
                Err(_) => false,
            },
    {
        match self.checked(ip).set_destination(value) {
            Ok(scope) => {
                let _ = scope.finish();
                Ok(self)
            },
            Err(e) => Err(e),
        }
    }

    /// Packet sequence, in a scope of its own: the field is written and the
    /// checksum recalculated at once.
    pub fn checked_set_sequence<BI: AsBytes>(
        &mut self,
        ip: &ip::Packet<BI>,
        value: u32,
    ) -> (r: Result<&mut Self, Error>)
        requires
            old(self).splittable(),
            header_len(old(self)@) >= 20,
            addressed(ip),
        ensures
            match r {
                Ok(p) => p@
                    == with_checksum(*ip is V4, ip@, overwrite(old(self)@, 4, be_bytes_u32(value)))
                    && valid(*ip is V4, ip@, p@)
                    && *final(p) == *final(self),
                Err(_) => false,
            },
    {
        match self.checked(ip).set_sequence(value) {
            Ok(scope) => {
                let _ = scope.finish();
                Ok(self)
            },
            Err(e) => Err(e),
        }
    }

    /// Optional acknowledgment, in a scope of its own: the field is written and the
    /// checksum recalculated at once.
    pub fn checked_set_acknowledgment<BI: AsBytes>(
        &mut self,
        ip: &ip::Packet<BI>,
        value: u32,
    ) -> (r: Result<&mut Self, Error>)
        requires
            old(self).splittable(),
            header_len(old(self)@) >= 20,
            addressed(ip),
        ensures
            match r {
                Ok(p) => p@
                    == with_checksum(*ip is V4, ip@, overwrite(old(self)@, 8, be_bytes_u32(value)))
                    && valid(*ip is V4, ip@, p@)
                    && *final(p) == *final(self),
                Err(_) => false,
            },
    {
        match self.checked(ip).set_acknowledgment(value) {
            Ok(scope) => {
                let _ = scope.finish();
                Ok(self)
            },
            Err(e) => Err(e),
        }
    }

    /// Packet window, in a scope of its own: the field is written and the
    /// checksum recalculated at once.
    pub fn checked_set_window<BI: AsBytes>(
        &mut self,
        ip: &ip::Packet<BI>,
        value: u16,
    ) -> (r: Result<&mut Self, Error>)
        requires
            old(self).splittable(),
            header_len(old(self)@) >= 20,
            addressed(ip),
        ensures
            match r {
                Ok(p) => p@
                    == with_checksum(*ip is V4, ip@, overwrite(old(self)@, 14, be_bytes_u16(value)))
                    && valid(*ip is V4, ip@, p@)
                    && *final(p) == *final(self),
                Err(_) => false,
            },
    {
        match self.checked(ip).set_window(value) {
            Ok(scope) => {
                let _ = scope.finish();
                Ok(self)
            },
            Err(e) => Err(e),
        }
    }

    /// Urgent pointer, in a scope of its own: the field is written and the
    /// checksum recalculated at once.
    pub fn checked_set_pointer<BI: AsBytes>(
        &mut self,
        ip: &ip::Packet<BI>,
        value: u16,
    ) -> (r: Result<&mut Self, Error>)
        requires
            old(self).splittable(),
            header_len(old(self)@) >= 20,
            addressed(ip),
        ensures
            match r {
                Ok(p) => p@
                    == with_checksum(*ip is V4, ip@, overwrite(old(self)@, 18, be_bytes_u16(value)))
                    && valid(*ip is V4, ip@, p@)
                    && *final(p) == *final(self),
                Err(_) => false,
            },
    {
        match self.checked(ip).set_pointer(value) {
            Ok(scope) => {
                let _ = scope.finish();
                Ok(self)
            },
            Err(e) => Err(e),
        }
    }
}

/// The bytes with every field written, one after the other.
pub open spec fn with_fields(
    bytes: Seq<u8>,
    source: u16,
    destination: u16,
    sequence: u32,
    acknowledgment: u32,
    window: u16,
    pointer: u16,
    checksum: u16,
) -> Seq<u8> {
    let b0 = overwrite(bytes, 0, be_bytes_u16(source));
    let b1 = overwrite(b0, 2, be_bytes_u16(destination));
    let b2 = overwrite(b1, 4, be_bytes_u32(sequence));
    let b3 = overwrite(b2, 8, be_bytes_u32(acknowledgment));
    let b4 = overwrite(b3, 14, be_bytes_u16(window));
    let b5 = overwrite(b4, 18, be_bytes_u16(pointer));
    let b6 = overwrite(b5, 16, be_bytes_u16(checksum));
    b6
}

/// Round trip: every field that is written is read back as it was written,
/// whatever was written to the other fields.
pub proof fn lemma_round_trip(
    bytes: Seq<u8>,
    source: u16,
    destination: u16,
    sequence: u32,
    acknowledgment: u32,
    window: u16,
    pointer: u16,
    checksum: u16,
)
    requires
        bytes.len() >= 20,
    ensures
        ({
            let written = with_fields(
                bytes,
                source,
                destination,
                sequence,
                acknowledgment,
                window,
                pointer,
                checksum,
            );
            &&& written.len() == bytes.len()
            &&& be_u16(written, 0) == source
            &&& be_u16(written, 2) == destination
            &&& be_u32(written, 4) == sequence
            &&& be_u32(written, 8) == acknowledgment
            &&& be_u16(written, 14) == window
            &&& be_u16(written, 18) == pointer
            &&& be_u16(written, 16) == checksum
        }),
{
    let written = with_fields(
        bytes,
        source,
        destination,
        sequence,
        acknowledgment,
        window,
        pointer,
        checksum,
    );
    crate::endian::lemma_u16_round_trip(bytes, 0, source);
    crate::endian::lemma_u16_round_trip(bytes, 2, destination);
    crate::endian::lemma_u32_round_trip(bytes, 4, sequence);
    crate::endian::lemma_u32_round_trip(bytes, 8, acknowledgment);
    crate::endian::lemma_u16_round_trip(bytes, 14, window);
    crate::endian::lemma_u16_round_trip(bytes, 18, pointer);
    crate::endian::lemma_u16_round_trip(bytes, 16, checksum);
}

impl<'a, B: AsBytes + ?Sized> AsPacket<'a, Packet<&'a [u8]>> for B {
    open spec fn readable(&self) -> bool {
        true
    }

    open spec fn packet_bytes(&self) -> Seq<u8> {
        self.bytes()
    }

    open spec fn parsed(bytes: Seq<u8>) -> Result<(), Error> {
        check(bytes)
    }

    fn as_packet(&'a self) -> (r: Result<Packet<&'a [u8]>, Error>) {
        Packet::new(self.as_bytes())
    }
}

impl<'a, B: AsBytesMut + ?Sized> AsPacketMut<'a, Packet<&'a mut [u8]>> for B {
    open spec fn writable(&self) -> bool {
        true
    }

    open spec fn packet_bytes_mut(&self) -> Seq<u8> {
        self.bytes()
    }

    open spec fn parsed_mut(bytes: Seq<u8>) -> Result<(), Error> {
        check(bytes)
    }

    fn as_packet_mut(&'a mut self) -> (r: Result<Packet<&'a mut [u8]>, Error>) {
        Packet::new(self.as_bytes_mut())
    }
}

/// The checksum of a segment behind the pseudo-header of the IP packet that
/// carries it.
pub open spec fn checksum_of(v4: bool, ip: Seq<u8>, bytes: Seq<u8>) -> u16 {
    pseudo_header_checksum_of(pseudo_header(v4, ip, 6, bytes.len()), bytes, 16)
}

/// The bytes with the checksum of the segment stored in its field.
pub open spec fn with_checksum(v4: bool, ip: Seq<u8>, bytes: Seq<u8>) -> Seq<u8> {
    overwrite(bytes, 16, be_bytes_u16(checksum_of(v4, ip, bytes)))
}

/// Whether the checksum stored in the segment is the checksum of the segment.
pub open spec fn valid(v4: bool, ip: Seq<u8>, bytes: Seq<u8>) -> bool {
    checksum_of(v4, ip, bytes) == be_u16(bytes, 16)
}

/// Whether the IP packet is long enough to hold its addresses.
pub open spec fn addressed<B: AsBytes>(ip: &ip::Packet<B>) -> bool {
    &&& *ip is V4 ==> ip@.len() >= 20
    &&& *ip is V6 ==> ip@.len() >= 40
}

/// Once the checksum of the segment is stored in its field, the segment is
/// valid behind the same IP packet; storing it again changes nothing.
pub proof fn lemma_checksum_update(v4: bool, ip: Seq<u8>, bytes: Seq<u8>)
    requires
        bytes.len() >= 18,
    ensures
        valid(v4, ip, with_checksum(v4, ip, bytes)),
        with_checksum(v4, ip, with_checksum(v4, ip, bytes)) == with_checksum(v4, ip, bytes),
{
    let prefix = pseudo_header(v4, ip, 6, bytes.len());
    crate::checksum::lemma_stored_pseudo_header_checksum_is_valid(prefix, bytes, 16);
    let after = with_checksum(v4, ip, bytes);
    assert(after.len() == bytes.len());
    assert(with_checksum(v4, ip, after) =~= after);
}

/// A scope of writes to a segment that ends with the checksum set right:
/// every setter writes its field at once, `finish` recalculates the checksum
/// behind the IP packet that the scope was opened with. A scope has to be
/// finished: one that is only let go leaves the checksum as it was. For a
/// single write the `checked_set_` functions of the view open the scope and
/// finish it in one call.
#[must_use]
pub struct Checked<'a, 'b, BP: AsBytesMut, BI: AsBytes> {
    pub packet: &'a mut Packet<BP>,
    pub ip: &'b ip::Packet<BI>,
}

impl<'a, 'b, BP: AsBytesMut, BI: AsBytes> Checked<'a, 'b, BP, BI> {
    /// Source port.
    pub fn set_source(self, value: u16) -> (r: Result<Self, Error>)
        requires
            old(self.packet).splittable(),
            header_len(old(self.packet)@) >= 20,
        ensures
            match r {
                Ok(g) => g.packet@ == overwrite(old(self.packet)@, 0, be_bytes_u16(value))
                    && *final(g.packet) == *final(self.packet)
                    && g.ip == self.ip,
                Err(_) => false,
            },
    {
        let Checked { packet, ip } = self;
        match packet.set_source(value) {
            Ok(_) => Ok(Checked { packet, ip }),
            Err(e) => {
                let _ = packet.update_checksum(ip);
                Err(e)
            },
        }
    }

    /// Destination port.
    pub fn set_destination(self, value: u16) -> (r: Result<Self, Error>)
        requires
            old(self.packet).splittable(),
            header_len(old(self.packet)@) >= 20,
        ensures
            match r {
                Ok(g) => g.packet@ == overwrite(old(self.packet)@, 2, be_bytes_u16(value))
                    && *final(g.packet) == *final(self.packet)
                    && g.ip == self.ip,
                Err(_) => false,
            },
    {
        let Checked { packet, ip } = self;
        match packet.set_destination(value) {
            Ok(_) => Ok(Checked { packet, ip }),
            Err(e) => {
                let _ = packet.update_checksum(ip);
                Err(e)
            },
        }
    }

    /// Packet sequence.
    pub fn set_sequence(self, value: u32) -> (r: Result<Self, Error>)
        requires
            old(self.packet).splittable(),
            header_len(old(self.packet)@) >= 20,
        ensures
            match r {
                Ok(g) => g.packet@ == overwrite(old(self.packet)@, 4, be_bytes_u32(value))
                    && *final(g.packet) == *final(self.packet)
                    && g.ip == self.ip,
                Err(_) => false,
            },
    {
        let Checked { packet, ip } = self;
        match packet.set_sequence(value) {
            Ok(_) => Ok(Checked { packet, ip }),
            Err(e) => {
                let _ = packet.update_checksum(ip);
                Err(e)
            },
        }
    }

    /// Optional acknowledgment.
    pub fn set_acknowledgment(self, value: u32) -> (r: Result<Self, Error>)
        requires
            old(self.packet).splittable(),
            header_len(old(self.packet)@) >= 20,
        ensures
            match r {
                Ok(g) => g.packet@ == overwrite(old(self.packet)@, 8, be_bytes_u32(value))
                    && *final(g.packet) == *final(self.packet)
                    && g.ip == self.ip,
                Err(_) => false,
            },
    {
        let Checked { packet, ip } = self;
        match packet.set_acknowledgment(value) {
            Ok(_) => Ok(Checked { packet, ip }),
            Err(e) => {
                let _ = packet.update_checksum(ip);
                Err(e)
            },
        }
    }

    /// Packet flags.
    pub fn set_flags(self, value: Flags) -> (r: Result<Self, Error>)
        requires
            old(self.packet).splittable(),
            header_len(old(self.packet)@) >= 20,
        ensures
            match r {
                Ok(g) => g.packet@ == with_flags(old(self.packet)@, value)
                    && *final(g.packet) == *final(self.packet)
                    && g.ip == self.ip,
                Err(_) => false,
            },
    {
        let Checked { packet, ip } = self;
        match packet.set_flags(value) {
            Ok(_) => Ok(Checked { packet, ip }),
            Err(e) => {
                let _ = packet.update_checksum(ip);
                Err(e)
            },
        }
    }

    /// Packet window.
    pub fn set_window(self, value: u16) -> (r: Result<Self, Error>)
        requires
            old(self.packet).splittable(),
            header_len(old(self.packet)@) >= 20,
        ensures
            match r {
                Ok(g) => g.packet@ == overwrite(old(self.packet)@, 14, be_bytes_u16(value))
                    && *final(g.packet) == *final(self.packet)
                    && g.ip == self.ip,
                Err(_) => false,
            },
    {
        let Checked { packet, ip } = self;
        match packet.set_window(value) {
            Ok(_) => Ok(Checked { packet, ip }),
            Err(e) => {
                let _ = packet.update_checksum(ip);
                Err(e)
            },
        }
    }

    /// Urgent pointer.
    pub fn set_pointer(self, value: u16) -> (r: Result<Self, Error>)
        requires
            old(self.packet).splittable(),
            header_len(old(self.packet)@) >= 20,
        ensures
            match r {
                Ok(g) => g.packet@ == overwrite(old(self.packet)@, 18, be_bytes_u16(value))
                    && *final(g.packet) == *final(self.packet)
                    && g.ip == self.ip,
                Err(_) => false,
            },
    {
        let Checked { packet, ip } = self;
        match packet.set_pointer(value) {
            Ok(_) => Ok(Checked { packet, ip }),
            Err(e) => {
                let _ = packet.update_checksum(ip);
                Err(e)
            },
        }
    }
    /// End the scope: recalculate the checksum and store it.
    pub fn finish(self) -> (r: Result<(), Error>)
        requires
            old(self.packet).splittable(),
            header_len(old(self.packet)@) >= 20,
            addressed(self.ip),
        ensures
            r is Ok,
            (*final(self.packet))@ == with_checksum(
                *self.ip is V4,
                self.ip@,
                old(self.packet)@,
            ),
            valid(*self.ip is V4, self.ip@, (*final(self.packet))@),
    {
        let Checked { packet, ip } = self;
        let _ = packet.update_checksum(ip);
        Ok(())
    }
}

} // verus!
