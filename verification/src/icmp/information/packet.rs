use vstd::prelude::*;
use crate::bytes::{to_vec, AsBytes, AsBytesMut};
use crate::checksum::internet_checksum_of;
use crate::endian::{be_bytes_u16, be_u16, overwrite, read_u16, write_u16};
use crate::error::Error;
use crate::icmp::Kind;
use crate::icmp::checksum;
use crate::icmp::packet::Checked;
use crate::packet::{AsPacket, AsPacketMut, Packet as P, PacketMut as PM};
use crate::size;

verus! {

/// Information Request/Reply packet parser.
pub struct Packet<B> {
    buffer: B,
}

/// Whether the first byte announces a kind of message that this view reads.
pub open spec fn right_kind(bytes: Seq<u8>) -> bool {
    Kind::of(bytes[0]) == Kind::InformationRequest || Kind::of(bytes[0]) == Kind::InformationReply
}

/// What parsing makes of the bytes: too few for the header, or not the kind
/// of message that this view reads.
pub open spec fn check(bytes: Seq<u8>) -> Result<(), Error> {
    if bytes.len() < 8 {
        Err(Error::SmallBuffer)
    } else if !right_kind(bytes) {
        Err(Error::InvalidPacket)
    } else {
        Ok(())
    }
}

impl<B: AsBytes> View for Packet<B> {
    type V = Seq<u8>;

    closed spec fn view(&self) -> Seq<u8> {
        self.buffer.bytes()
    }
}

impl<B: AsBytes> AsBytes for Packet<B> {
    open spec fn bytes(&self) -> Seq<u8> {
        self@
    }

    proof fn lemma_bytes_len(&self) {
        self.buffer.lemma_bytes_len();
    }

    fn as_bytes(&self) -> (r: &[u8]) {
        self.buffer.as_bytes()
    }
}

impl<B: AsBytesMut> AsBytesMut for Packet<B> {
    fn as_bytes_mut(&mut self) -> (r: &mut [u8]) {
        self.buffer.as_bytes_mut()
    }
}

impl<B> size::header::Min for Packet<B> {
    open spec fn header_min() -> nat {
        8
    }

    fn min() -> (r: usize) {
        8
    }
}

impl<B> size::header::Max for Packet<B> {
    open spec fn header_max() -> nat {
        8
    }

    fn max() -> (r: usize) {
        8
    }
}

impl<B: AsBytes> size::header::Size for Packet<B> {
    open spec fn header_sized(&self) -> bool {
        true
    }

    open spec fn header_size(&self) -> nat {
        8
    }

    fn size(&self) -> (r: usize) {
        assert(self.header_sized());
        assert(self.header_size() == 8);
        8
    }
}

impl<B> size::payload::Min for Packet<B> {
    open spec fn payload_min() -> nat {
        0
    }

    fn min() -> (r: usize) {
        0
    }
}

impl<B> size::payload::Max for Packet<B> {
    open spec fn payload_max() -> nat {
        0
    }

    fn max() -> (r: usize) {
        0
    }
}

impl<B: AsBytes> size::payload::Size for Packet<B> {
    open spec fn payload_sized(&self) -> bool {
        true
    }

    open spec fn payload_size(&self) -> nat {
        0
    }

    fn size(&self) -> (r: usize) {
        assert(self.payload_sized());
        assert(self.payload_size() == 0);
        0
    }
}

impl<B: AsBytes> Packet<B> {
    /// Create an Information Request/Reply packet without checking the buffer.
    pub fn unchecked(buffer: B) -> (r: Packet<B>)
        ensures
            r@ == buffer.bytes(),
    {
        Packet { buffer }
    }

    /// Parse an Information Request/Reply packet, checking the buffer contents are correct.
    pub fn new(buffer: B) -> (r: Result<Packet<B>, Error>)
        ensures
            match r {
                Ok(packet) => check(buffer.bytes()) is Ok && packet@ == buffer.bytes(),
                Err(e) => check(buffer.bytes()) == Err::<(), Error>(e),
            },
    {
        let packet = Packet { buffer };
        if packet.buffer.as_bytes().len() < 8 {
            return Err(Error::SmallBuffer);
        }
        match Kind::from_number(packet.buffer.as_bytes()[0]) {
            Kind::InformationRequest | Kind::InformationReply => {},
            _ => {
                return Err(Error::InvalidPacket);
            },
        }
        Ok(packet)
    }

    /// Convert the packet to its owned version.
    pub fn to_owned(&self) -> (r: Packet<Vec<u8>>)
        ensures
            r@ == self@,
    {
        Packet { buffer: to_vec(&self.buffer) }
    }

    /// The bytes of the packet: header and payload, without what lies behind.
    pub fn as_ref(&self) -> (r: &[u8])
        requires
            self@.len() >= 8,
        ensures
            r@ == self@.take(8int),
    {
        proof {
            self.lemma_bytes_len();
            assert(size::header::Size::header_sized(self));
            assert(size::payload::Size::payload_sized(self));
        }
        let size: usize = size::Size::size(self);
        vstd::slice::slice_subrange(self.buffer.as_bytes(), 0, size)
    }
}

impl<B: AsBytesMut> Packet<B> {
    /// The bytes of the packet, to be written: header and payload, without
    /// what lies behind, which stays.
    pub fn as_mut(&mut self) -> (r: &mut [u8])
        requires
            old(self)@.len() >= 8,
        ensures
            r@ == old(self)@.take(8int),
            (*final(self))@ == final(r)@ + old(self)@.skip(8int),
    {
        proof {
            self.lemma_bytes_len();
            assert(size::header::Size::header_sized(self));
            assert(size::payload::Size::payload_sized(self));
        }
        let size: usize = size::Size::size(self);
        let (front, _) = self.buffer.as_bytes_mut().split_at_mut(size);
        front
    }
}

impl<B: AsBytes> P for Packet<B> {
    open spec fn raw(&self) -> Seq<u8> {
        self@
    }

    open spec fn header_end(&self) -> int {
        8
    }

    open spec fn payload_end(&self) -> int {
        self@.len() as int
    }

    open spec fn splittable(&self) -> bool {
        self@.len() >= 8
    }

    proof fn lemma_split_bounds(&self) {
    }

    fn split(&self) -> (r: (&[u8], &[u8])) {
        assert(self.splittable());
        let r = self.buffer.as_bytes().split_at(8);
        assert(self.payload_end() == self@.len());
        r
    }
}

impl<B: AsBytesMut> PM for Packet<B> {
    fn split_mut(&mut self) -> (r: (&mut [u8], &mut [u8])) {
        assert(self.splittable());
        let r = self.buffer.as_bytes_mut().split_at_mut(8);
        proof {
            assert(old(self).payload_end() == old(self)@.len());
            assert(old(self)@.skip(old(self)@.len() as int) =~= Seq::<u8>::empty());
        }
        r
    }
}

impl<B: AsBytes> Packet<B> {
    /// Check if it's a Request packet.
    pub fn is_request(&self) -> (r: bool)
        requires
            self@.len() > 0,
        ensures
            r == (Kind::of(self@[0]) == Kind::InformationRequest),
    {
        Kind::from_number(self.buffer.as_bytes()[0]) == Kind::InformationRequest
    }

    /// Check if it's a Reply packet.
    pub fn is_reply(&self) -> (r: bool)
        requires
            self@.len() > 0,
        ensures
            r == (Kind::of(self@[0]) == Kind::InformationReply),
    {
        Kind::from_number(self.buffer.as_bytes()[0]) == Kind::InformationReply
    }

    /// Packet identifier.
    pub fn identifier(&self) -> (r: u16)
        requires
            self@.len() >= 6,
        ensures
            r == be_u16(self@, 4),
    {
        read_u16(self.buffer.as_bytes(), 4)
    }

    /// Packet sequence.
    pub fn sequence(&self) -> (r: u16)
        requires
            self@.len() >= 8,
        ensures
            r == be_u16(self@, 6),
    {
        read_u16(self.buffer.as_bytes(), 6)
    }
}

impl<B: AsBytesMut> Packet<B> {
    /// Make the packet an Echo Request.
    pub fn make_request(&mut self) -> (r: Result<&mut Self, Error>)
        requires
            old(self)@.len() >= 1,
        ensures
            match r {
                Ok(p) => p@ == old(self)@.update(0, Kind::EchoRequest.number())
                    && *final(p) == *final(self),
                Err(_) => false,
            },
    {
        let bytes = self.buffer.as_bytes_mut();
        bytes[0] = Kind::EchoRequest.into_number();
        Ok(self)
    }

    /// Make the packet an Echo Reply.
    pub fn make_reply(&mut self) -> (r: Result<&mut Self, Error>)
        requires
            old(self)@.len() >= 1,
        ensures
            match r {
                Ok(p) => p@ == old(self)@.update(0, Kind::EchoReply.number())
                    && *final(p) == *final(self),
                Err(_) => false,
            },
    {
        let bytes = self.buffer.as_bytes_mut();
        bytes[0] = Kind::EchoReply.into_number();
        Ok(self)
    }

    /// Packet identifier.
    pub fn set_identifier(&mut self, value: u16) -> (r: Result<&mut Self, Error>)
        requires
            old(self)@.len() >= 4,
        ensures
            match r {
                Ok(p) => old(self)@.len() >= 6
                    && p@ == overwrite(old(self)@, 4, be_bytes_u16(value))
                    && *final(p) == *final(self),
                Err(e) => old(self)@.len() < 6
                    && e == Error::Io
                    && (*final(self))@ == overwrite(old(self)@, 4, be_bytes_u16(value)),
            },
    {
        let bytes = self.buffer.as_bytes_mut();
        match write_u16(bytes, 4, value) {
            Ok(_) => Ok(self),
            Err(e) => Err(e),
        }
    }

    /// Packet sequence.
    pub fn set_sequence(&mut self, value: u16) -> (r: Result<&mut Self, Error>)
        requires
            old(self)@.len() >= 6,
        ensures
            match r {
                Ok(p) => old(self)@.len() >= 8
                    && p@ == overwrite(old(self)@, 6, be_bytes_u16(value))
                    && *final(p) == *final(self),
                Err(e) => old(self)@.len() < 8
                    && e == Error::Io
                    && (*final(self))@ == overwrite(old(self)@, 6, be_bytes_u16(value)),
            },
    {
        let bytes = self.buffer.as_bytes_mut();
        match write_u16(bytes, 6, value) {
            Ok(_) => Ok(self),
            Err(e) => Err(e),
        }
    }

    /// Create a checksumed setter.
    pub fn checked(&mut self) -> (r: Checked<'_, Self>)
        ensures
            r.packet@ == old(self)@,
            *final(r.packet) == *final(self),
    {
        Checked { packet: self }
    }

    /// Recalculate and set the checksum value.
    pub fn update_checksum(&mut self) -> (r: Result<&mut Self, Error>)
        requires
            old(self)@.len() >= 8,
        ensures
            match r {
                Ok(p) => p@ == with_checksum(old(self)@) && valid(p@) && *final(p) == *final(self),
                Err(_) => false,
            },
    {
        let sum: u16 = checksum(self.as_ref());
        proof {
            lemma_checksum_update(self@);
        }
        let bytes = self.buffer.as_bytes_mut();
        let _ = write_u16(bytes, 2, sum);
        Ok(self)
    }

    /// Make the packet an Echo Request, in a scope of its own: the field is written and the
    /// checksum recalculated at once.
    pub fn checked_make_request(&mut self) -> (r: Result<&mut Self, Error>)
        requires
            old(self)@.len() >= 8,
        ensures
            match r {
                Ok(p) => p@ == with_checksum(old(self)@.update(0, Kind::EchoRequest.number()))
                    && valid(p@)
                    && *final(p) == *final(self),
                Err(_) => false,
            },
    {
        match self.checked().make_request() {
            Ok(scope) => {
                let _ = scope.finish();
                Ok(self)
            },
            Err(e) => Err(e),
        }
    }

    /// Make the packet an Echo Reply, in a scope of its own: the field is written and the
    /// checksum recalculated at once.
    pub fn checked_make_reply(&mut self) -> (r: Result<&mut Self, Error>)
        requires
            old(self)@.len() >= 8,
        ensures
            match r {
                Ok(p) => p@ == with_checksum(old(self)@.update(0, Kind::EchoReply.number()))
                    && valid(p@)
                    && *final(p) == *final(self),
                Err(_) => false,
            },
    {
        match self.checked().make_reply() {
            Ok(scope) => {
                let _ = scope.finish();
                Ok(self)
            },
            Err(e) => Err(e),
        }
    }

    /// Packet identifier, in a scope of its own: the field is written and the
    /// checksum recalculated at once.
    pub fn checked_set_identifier(&mut self, value: u16) -> (r: Result<&mut Self, Error>)
        requires
            old(self)@.len() >= 8,
        ensures
            match r {
                Ok(p) => p@ == with_checksum(overwrite(old(self)@, 4, be_bytes_u16(value)))
                    && valid(p@)
                    && *final(p) == *final(self),
                Err(_) => false,
            },
    {
        match self.checked().set_identifier(value) {
            Ok(scope) => {
                let _ = scope.finish();
                Ok(self)
            },
            Err(e) => Err(e),
        }
    }

    /// Packet sequence, in a scope of its own: the field is written and the
    /// checksum recalculated at once.
    pub fn checked_set_sequence(&mut self, value: u16) -> (r: Result<&mut Self, Error>)
        requires
            old(self)@.len() >= 8,
        ensures
            match r {
                Ok(p) => p@ == with_checksum(overwrite(old(self)@, 6, be_bytes_u16(value)))
                    && valid(p@)
                    && *final(p) == *final(self),
                Err(_) => false,
            },
    {
        match self.checked().set_sequence(value) {
            Ok(scope) => {
                let _ = scope.finish();
                Ok(self)
            },
            Err(e) => Err(e),
        }
    }
}

/// The bytes with every field written, one after the other.
pub open spec fn with_fields(bytes: Seq<u8>, identifier: u16, sequence: u16) -> Seq<u8> {
    let b0 = overwrite(bytes, 4, be_bytes_u16(identifier));
    let b1 = overwrite(b0, 6, be_bytes_u16(sequence));
    b1
}

/// Round trip: every field that is written is read back as it was written,
/// whatever was written to the other fields.
pub proof fn lemma_round_trip(bytes: Seq<u8>, identifier: u16, sequence: u16)
    requires
        bytes.len() >= 8,
    ensures
        ({
            let written = with_fields(bytes, identifier, sequence);
            &&& written.len() == bytes.len()
            &&& be_u16(written, 4) == identifier
            &&& be_u16(written, 6) == sequence
        }),
{
    let written = with_fields(bytes, identifier, sequence);
    crate::endian::lemma_u16_round_trip(bytes, 4, identifier);
    crate::endian::lemma_u16_round_trip(bytes, 6, sequence);
}

impl<'a, B: AsBytes + ?Sized> AsPacket<'a, Packet<&'a [u8]>> for B {
    open spec fn readable(&self) -> bool {
        true
    }

    open spec fn packet_bytes(&self) -> Seq<u8> {
        self.bytes()
    }

    open spec fn parsed(bytes: Seq<u8>) -> Result<(), Error> {
        check(bytes)
    }

    fn as_packet(&'a self) -> (r: Result<Packet<&'a [u8]>, Error>) {
        Packet::new(self.as_bytes())
    }
}

impl<'a, B: AsBytesMut + ?Sized> AsPacketMut<'a, Packet<&'a mut [u8]>> for B {
    open spec fn writable(&self) -> bool {
        true
    }

    open spec fn packet_bytes_mut(&self) -> Seq<u8> {
        self.bytes()
    }

    open spec fn parsed_mut(bytes: Seq<u8>) -> Result<(), Error> {
        check(bytes)
    }

    fn as_packet_mut(&'a mut self) -> (r: Result<Packet<&'a mut [u8]>, Error>) {
        Packet::new(self.as_bytes_mut())
    }
}

/// The bytes with the checksum of the message stored in its field.
pub open spec fn with_checksum(bytes: Seq<u8>) -> Seq<u8> {
    overwrite(bytes, 2, be_bytes_u16(internet_checksum_of(bytes.take(8), 2)))
}

/// Whether the checksum stored in the message is the checksum of the message.
pub open spec fn valid(bytes: Seq<u8>) -> bool {
    internet_checksum_of(bytes.take(8), 2) == be_u16(bytes, 2)
}

/// Once the checksum of the message is stored in its field, the message is
/// valid; storing it again changes nothing.
pub proof fn lemma_checksum_update(bytes: Seq<u8>)
    requires
        bytes.len() >= 8,
    ensures
        valid(with_checksum(bytes)),
        with_checksum(with_checksum(bytes)) == with_checksum(bytes),
{
    let message = bytes.take(8);
    let after = with_checksum(bytes);
    crate::checksum::lemma_stored_checksum_is_valid(message, 2);
    let sum = internet_checksum_of(message, 2);
    assert(after.take(8) =~= overwrite(message, 2, be_bytes_u16(sum)));
    assert(be_u16(after, 2) == be_u16(overwrite(message, 2, be_bytes_u16(sum)), 2));
    assert(with_checksum(after) =~= after);
}

impl<'a, B: AsBytesMut> Checked<'a, Packet<B>> {
    /// Make the packet an Echo Request.
    pub fn make_request(self) -> (r: Result<Self, Error>)
        requires
            old(self.packet)@.len() >= 8,
        ensures
            match r {
                Ok(g) => g.packet@ == old(self.packet)@.update(0, Kind::EchoRequest.number())
                    && *final(g.packet) == *final(self.packet),
                Err(_) => false,
            },
    {
        let Checked { packet } = self;
        match packet.make_request() {
            Ok(_) => Ok(Checked { packet }),
            Err(e) => {
                let _ = packet.update_checksum();
                Err(e)
            },
        }
    }

    /// Make the packet an Echo Reply.
    pub fn make_reply(self) -> (r: Result<Self, Error>)
        requires
            old(self.packet)@.len() >= 8,
        ensures
            match r {
                Ok(g) => g.packet@ == old(self.packet)@.update(0, Kind::EchoReply.number())
                    && *final(g.packet) == *final(self.packet),
                Err(_) => false,
            },
    {
        let Checked { packet } = self;
        match packet.make_reply() {
            Ok(_) => Ok(Checked { packet }),
            Err(e) => {
                let _ = packet.update_checksum();
                Err(e)
            },
        }
    }

    /// Packet identifier.
    pub fn set_identifier(self, value: u16) -> (r: Result<Self, Error>)
        requires
            old(self.packet)@.len() >= 8,
        ensures
            match r {
                Ok(g) => g.packet@ == overwrite(old(self.packet)@, 4, be_bytes_u16(value))
                    && *final(g.packet) == *final(self.packet),
                Err(_) => false,
            },
    {
        let Checked { packet } = self;
        match packet.set_identifier(value) {
            Ok(_) => Ok(Checked { packet }),
            Err(e) => {
                let _ = packet.update_checksum();
                Err(e)
            },
        }
    }

    /// Packet sequence.
    pub fn set_sequence(self, value: u16) -> (r: Result<Self, Error>)
        requires
            old(self.packet)@.len() >= 8,
        ensures
            match r {
                Ok(g) => g.packet@ == overwrite(old(self.packet)@, 6, be_bytes_u16(value))
                    && *final(g.packet) == *final(self.packet),
                Err(_) => false,
            },
    {
        let Checked { packet } = self;
        match packet.set_sequence(value) {
            Ok(_) => Ok(Checked { packet }),
            Err(e) => {
                let _ = packet.update_checksum();
                Err(e)
            },
        }
    }
    /// End the scope: recalculate the checksum and store it.
    pub fn finish(self) -> (r: Result<(), Error>)
        requires
            old(self.packet)@.len() >= 8,
        ensures
            r is Ok,
            (*final(self.packet))@ == with_checksum(old(self.packet)@),
            valid((*final(self.packet))@),
    {
        let Checked { packet } = self;
        let _ = packet.update_checksum();
        Ok(())
    }
}

} // verus!
