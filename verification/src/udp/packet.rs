use vstd::prelude::*;
use crate::bytes::{to_vec, AsBytes, AsBytesMut};
use crate::checksum::pseudo_header_checksum_of;
use crate::endian::{be_bytes_u16, be_u16, overwrite, read_u16, write_u16};
use crate::error::Error;
use crate::ip::packet::pseudo_header;
use crate::ip;
use crate::packet::{AsPacket, AsPacketMut, Packet as P, PacketMut as PM};
use crate::size;
use crate::udp::checksum;

verus! {

/// UDP packet parser.
pub struct Packet<B> {
    buffer: B,
}

/// The length of the payload that the bytes announce: the length of the
/// datagram less the header, and zero where that is less than nothing.
pub open spec fn payload_len(bytes: Seq<u8>) -> int {
    if be_u16(bytes, 4) >= 8 {
        be_u16(bytes, 4) as int - 8
    } else {
        0
    }
}

/// Where the datagram ends within the bytes: behind header and payload, or
/// where the bytes end if that comes first.
pub open spec fn packet_end(bytes: Seq<u8>) -> int {
    if bytes.len() < 8 + payload_len(bytes) {
        bytes.len() as int
    } else {
        8 + payload_len(bytes)
    }
}

/// What parsing without a look at the payload makes of the bytes: too few
/// where they are less than the header.
pub open spec fn check_header(bytes: Seq<u8>) -> Result<(), Error> {
    if bytes.len() < 8 {
        Err(Error::SmallBuffer)
    } else {
        Ok(())
    }
}

/// What parsing makes of the bytes: as for the header, and too few where the
/// length announced is more than there are.
pub open spec fn check(bytes: Seq<u8>) -> Result<(), Error> {
    if bytes.len() < 8 {
        Err(Error::SmallBuffer)
    } else if bytes.len() < be_u16(bytes, 4) {
        Err(Error::SmallBuffer)
    } else {
        Ok(())
    }
}

/// What parses lies within the bytes: header and payload as they are
/// announced are no more than the bytes that there are.
pub proof fn lemma_parsed_fits(bytes: Seq<u8>)
    requires
        check(bytes) is Ok,
    ensures
        8 + payload_len(bytes) <= bytes.len(),
        packet_end(bytes) == 8 + payload_len(bytes),
{
}

impl<B: AsBytes> View for Packet<B> {
    type V = Seq<u8>;

    closed spec fn view(&self) -> Seq<u8> {
        self.buffer.bytes()
    }
}

impl<B: AsBytes> AsBytes for Packet<B> {
    open spec fn bytes(&self) -> Seq<u8> {
        self@
    }

    proof fn lemma_bytes_len(&self) {
        self.buffer.lemma_bytes_len();
    }

    fn as_bytes(&self) -> (r: &[u8]) {
        self.buffer.as_bytes()
    }
}

impl<B: AsBytesMut> AsBytesMut for Packet<B> {
    fn as_bytes_mut(&mut self) -> (r: &mut [u8]) {
        self.buffer.as_bytes_mut()
    }
}

impl<B> size::header::Min for Packet<B> {
    open spec fn header_min() -> nat {
        8
    }

    fn min() -> (r: usize) {
        8
    }
}

impl<B> size::header::Max for Packet<B> {
    open spec fn header_max() -> nat {
        8
    }

    fn max() -> (r: usize) {
        8
    }
}

impl<B: AsBytes> size::header::Size for Packet<B> {
    open spec fn header_sized(&self) -> bool {
        true
    }

    open spec fn header_size(&self) -> nat {
        8
    }

    fn size(&self) -> (r: usize) {
        assert(self.header_sized());
        assert(self.header_size() == 8);
        8
    }
}

impl<B> size::payload::Min for Packet<B> {
    open spec fn payload_min() -> nat {
        0
    }

    fn min() -> (r: usize) {
        0
    }
}

impl<B> size::payload::Max for Packet<B> {
    open spec fn payload_max() -> nat {
        65527
    }

    fn max() -> (r: usize) {
        65527
    }
}

impl<B: AsBytes> size::payload::Size for Packet<B> {
    open spec fn payload_sized(&self) -> bool {
        self@.len() >= 6
    }

    open spec fn payload_size(&self) -> nat {
        payload_len(self@) as nat
    }

    fn size(&self) -> (r: usize) {
        assert(self.payload_sized());
        assert(self.payload_size() == payload_len(self@) as nat);
        let length: usize = self.length() as usize;
        if length >= 8 {
            length - 8
        } else {
            0
        }
    }
}

impl<B: AsBytes> Packet<B> {
    /// Create a UDP packet without checking the buffer.
    pub fn unchecked(buffer: B) -> (r: Packet<B>)
        ensures
            r@ == buffer.bytes(),
    {
        Packet { buffer }
    }

    /// Parse a UDP packet without checking the payload.
    pub fn no_payload(buffer: B) -> (r: Result<Packet<B>, Error>)
        ensures
            match r {
                Ok(packet) => check_header(buffer.bytes()) is Ok && packet@ == buffer.bytes(),
                Err(e) => check_header(buffer.bytes()) == Err::<(), Error>(e),
            },
    {
        let packet = Packet::unchecked(buffer);
        if packet.buffer.as_bytes().len() < 8 {
            return Err(Error::SmallBuffer);
        }
        Ok(packet)
    }

    /// Parse a UDP packet, checking the buffer contents are correct.
    pub fn new(buffer: B) -> (r: Result<Packet<B>, Error>)
        ensures
            match r {
                Ok(packet) => check(buffer.bytes()) is Ok && packet@ == buffer.bytes(),
                Err(e) => check(buffer.bytes()) == Err::<(), Error>(e),
            },
    {
        let packet = match Packet::no_payload(buffer) {
            Ok(packet) => packet,
            Err(e) => {
                return Err(e);
            },
        };
        if packet.buffer.as_bytes().len() < packet.length() as usize {
            return Err(Error::SmallBuffer);
        }
        Ok(packet)
    }

    /// Convert the packet to its owned version.
    pub fn to_owned(&self) -> (r: Packet<Vec<u8>>)
        ensures
            r@ == self@,
    {
        Packet { buffer: to_vec(&self.buffer) }
    }

    /// The bytes of the packet: header and payload, without what lies behind.
    pub fn as_ref(&self) -> (r: &[u8])
        requires
            self@.len() >= 6 && 8 + payload_len(self@) <= self@.len(),
        ensures
            r@ == self@.take(8 + payload_len(self@)),
    {
        proof {
            self.lemma_bytes_len();
            assert(size::header::Size::header_sized(self));
            assert(size::payload::Size::payload_sized(self));
        }
        let size: usize = size::Size::size(self);
        vstd::slice::slice_subrange(self.buffer.as_bytes(), 0, size)
    }
}

impl<B: AsBytesMut> Packet<B> {
    /// The bytes of the packet, to be written: header and payload, without
    /// what lies behind, which stays.
    pub fn as_mut(&mut self) -> (r: &mut [u8])
        requires
            old(self)@.len() >= 6 && 8 + payload_len(old(self)@) <= old(self)@.len(),
        ensures
            r@ == old(self)@.take(8 + payload_len(old(self)@)),
            (*final(self))@ == final(r)@ + old(self)@.skip(8 + payload_len(old(self)@)),
    {
        proof {
            self.lemma_bytes_len();
            assert(size::header::Size::header_sized(self));
            assert(size::payload::Size::payload_sized(self));
        }
        let size: usize = size::Size::size(self);
        let (front, _) = self.buffer.as_bytes_mut().split_at_mut(size);
        front
    }
}

impl<B: AsBytes> P for Packet<B> {
    open spec fn raw(&self) -> Seq<u8> {
        self@
    }

    open spec fn header_end(&self) -> int {
        8
    }

    open spec fn payload_end(&self) -> int {
        packet_end(self@)
    }

    open spec fn splittable(&self) -> bool {
        self@.len() >= 8
    }

    proof fn lemma_split_bounds(&self) {
    }

    fn split(&self) -> (r: (&[u8], &[u8])) {
        proof {
            assert(self.splittable());
            assert(size::payload::Size::payload_sized(self));
        }
        let header: usize = 8;
        let payload: usize = size::payload::Size::size(self);
        let buffer = self.buffer.as_bytes();
        let buffer = if buffer.len() < header + payload {
            buffer
        } else {
            vstd::slice::slice_subrange(buffer, 0, header + payload)
        };
        let r = buffer.split_at(header);
        proof {
            assert(r.0@ =~= self@.subrange(0, 8));
            assert(r.1@ =~= self@.subrange(8, packet_end(self@)));
            assert(self.payload_end() == packet_end(self@));
        }
        r
    }
}

impl<B: AsBytesMut> PM for Packet<B> {
    fn split_mut(&mut self) -> (r: (&mut [u8], &mut [u8])) {
        proof {
            assert(self.splittable());
            assert(size::payload::Size::payload_sized(self));
        }
        let header: usize = 8;
        let payload: usize = size::payload::Size::size(self);
        let buffer = self.buffer.as_bytes_mut();
        let end: usize = if buffer.len() < header + payload {
            buffer.len()
        } else {
            header + payload
        };
        let (front, back) = buffer.split_at_mut(end);
        let r = front.split_at_mut(header);
        proof {
            assert(r.0@ =~= old(self)@.subrange(0, 8));
            assert(r.1@ =~= old(self)@.subrange(8, packet_end(old(self)@)));
            assert(back@ =~= old(self)@.skip(packet_end(old(self)@)));
            assert(old(self).payload_end() == packet_end(old(self)@));
        }
        r
    }
}

impl<B: AsBytes> Packet<B> {
    /// Source port.
    pub fn source(&self) -> (r: u16)
        requires
            self@.len() >= 2,
        ensures
            r == be_u16(self@, 0),
    {
        read_u16(self.buffer.as_bytes(), 0)
    }

    /// Destination port.
    pub fn destination(&self) -> (r: u16)
        requires
            self@.len() >= 4,
        ensures
            r == be_u16(self@, 2),
    {
        read_u16(self.buffer.as_bytes(), 2)
    }

    /// Total length of the packet.
    pub fn length(&self) -> (r: u16)
        requires
            self@.len() >= 6,
        ensures
            r == be_u16(self@, 4),
    {
        read_u16(self.buffer.as_bytes(), 4)
    }

    /// Checksum of the packet.
    pub fn checksum(&self) -> (r: u16)
        requires
            self@.len() >= 8,
        ensures
            r == be_u16(self@, 6),
    {
        read_u16(self.buffer.as_bytes(), 6)
    }

    /// Verify the packet is valid by calculating the checksum.
    pub fn is_valid<I: AsBytes>(&self, ip: &ip::Packet<I>) -> (r: bool)
        requires
            self@.len() >= 8,
            addressed(ip),
        ensures
            r == valid(*ip is V4, ip@, self@),
    {
        checksum(ip, self.buffer.as_bytes()) == self.checksum()
    }
}

impl<B: AsBytesMut> Packet<B> {
    /// Source port.
    pub fn set_source(&mut self, value: u16) -> (r: Result<&mut Self, Error>)
        requires
            old(self).splittable(),
        ensures
            match r {
                Ok(p) => p@ == overwrite(old(self)@, 0, be_bytes_u16(value))
                    && *final(p) == *final(self),
                Err(_) => false,
            },
    {
        let bytes = self.header_mut();
        let _ = write_u16(bytes, 0, value);
        proof {
            assert(overwrite(old(self)@.subrange(0, 8), 0, be_bytes_u16(value)) + old(self)@.skip(8)
                =~= overwrite(old(self)@, 0, be_bytes_u16(value)));
        }
        Ok(self)
    }

    /// Destination port.
    pub fn set_destination(&mut self, value: u16) -> (r: Result<&mut Self, Error>)
        requires
            old(self).splittable(),
        ensures
            match r {
                Ok(p) => p@ == overwrite(old(self)@, 2, be_bytes_u16(value))
                    && *final(p) == *final(self),
                Err(_) => false,
            },
    {
        let bytes = self.header_mut();
        let _ = write_u16(bytes, 2, value);
        proof {
            assert(overwrite(old(self)@.subrange(0, 8), 2, be_bytes_u16(value)) + old(self)@.skip(8)
                =~= overwrite(old(self)@, 2, be_bytes_u16(value)));
        }
        Ok(self)
    }

    /// Set the checksum value.
    pub fn set_checksum(&mut self, value: u16) -> (r: Result<&mut Self, Error>)
        requires
            old(self).splittable(),
        ensures
            match r {
                Ok(p) => p@ == overwrite(old(self)@, 6, be_bytes_u16(value))
                    && *final(p) == *final(self),
                Err(_) => false,
            },
    {
        let bytes = self.header_mut();
        let _ = write_u16(bytes, 6, value);
        proof {
            assert(overwrite(old(self)@.subrange(0, 8), 6, be_bytes_u16(value)) + old(self)@.skip(8)
                =~= overwrite(old(self)@, 6, be_bytes_u16(value)));
        }
        Ok(self)
    }

    /// Create a checksumed setter.
    pub fn checked<'a, 'b, BI: AsBytes>(&'a mut self, ip: &'b ip::Packet<BI>) -> (r: Checked<
        'a,
        'b,
        B,
        BI,
    >)
        ensures
            r.packet@ == old(self)@,
            *final(r.packet) == *final(self),
            r.ip == ip,
    {
        Checked { packet: self, ip }
    }

    /// Recalculate and set the checksum value.
    pub fn update_checksum<BI: AsBytes>(&mut self, ip: &ip::Packet<BI>) -> (r: Result<
        &mut Self,
        Error,
    >)
        requires
            old(self).splittable(),
            addressed(ip),
        ensures
            match r {
                Ok(p) => p@ == with_checksum(*ip is V4, ip@, old(self)@) && valid(
                    *ip is V4,
                    ip@,
                    p@,
                ) && *final(p) == *final(self),
                Err(_) => false,
            },
    {
        let sum: u16 = checksum(ip, self.buffer.as_bytes());
        proof {
            lemma_checksum_update(*ip is V4, ip@, self@);
        }
        self.set_checksum(sum)
    }

    /// Source port, in a scope of its own: the field is written and the
    /// checksum recalculated at once.
    pub fn checked_set_source<BI: AsBytes>(
        &mut self,
        ip: &ip::Packet<BI>,
        value: u16,
    ) -> (r: Result<&mut Self, Error>)
        requires
            old(self).splittable(),
            addressed(ip),
        ensures
            match r {
                Ok(p) => p@
                    == with_checksum(*ip is V4, ip@, overwrite(old(self)@, 0, be_bytes_u16(value)))
                    && valid(*ip is V4, ip@, p@)
                    && *final(p) == *final(self),
                Err(_) => false,
            },
    {
        match self.checked(ip).set_source(value) {
            Ok(scope) => {
                let _ = scope.finish();
                Ok(self)
            },
            Err(e) => Err(e),
        }
    }

    /// Destination port, in a scope of its own: the field is written and the
    /// checksum recalculated at once.
    pub fn checked_set_destination<BI: AsBytes>(
        &mut self,
        ip: &ip::Packet<BI>,
        value: u16,
    ) -> (r: Result<&mut Self, Error>)
        requires
            old(self).splittable(),
            addressed(ip),
        ensures
            match r {
                Ok(p) => p@
                    == with_checksum(*ip is V4, ip@, overwrite(old(self)@, 2, be_bytes_u16(value)))
                    && valid(*ip is V4, ip@, p@)
                    && *final(p) == *final(self),
                Err(_) => false,
            },
    {
        match self.checked(ip).set_destination(value) {
            Ok(scope) => {
                let _ = scope.finish();
                Ok(self)
            },
            Err(e) => Err(e),
        }
    }
}

/// The bytes with every field written, one after the other.
pub open spec fn with_fields(
    bytes: Seq<u8>,
    source: u16,
    destination: u16,
    checksum: u16,
) -> Seq<u8> {
    let b0 = overwrite(bytes, 0, be_bytes_u16(source));
    let b1 = overwrite(b0, 2, be_bytes_u16(destination));
    let b2 = overwrite(b1, 6, be_bytes_u16(checksum));
    b2
}

/// Round trip: every field that is written is read back as it was written,
/// whatever was written to the other fields.
pub proof fn lemma_round_trip(bytes: Seq<u8>, source: u16, destination: u16, checksum: u16)
    requires
        bytes.len() >= 8,
    ensures
        ({
            let written = with_fields(bytes, source, destination, checksum);
            &&& written.len() == bytes.len()
            &&& be_u16(written, 0) == source
            &&& be_u16(written, 2) == destination
            &&& be_u16(written, 6) == checksum
        }),
{
    let written = with_fields(bytes, source, destination, checksum);
    crate::endian::lemma_u16_round_trip(bytes, 0, source);
    crate::endian::lemma_u16_round_trip(bytes, 2, destination);
    crate::endian::lemma_u16_round_trip(bytes, 6, checksum);
}

impl<'a, B: AsBytes + ?Sized> AsPacket<'a, Packet<&'a [u8]>> for B {
    open spec fn readable(&self) -> bool {
        true
    }

    open spec fn packet_bytes(&self) -> Seq<u8> {
        self.bytes()
    }

    open spec fn parsed(bytes: Seq<u8>) -> Result<(), Error> {
        check(bytes)
    }

    fn as_packet(&'a self) -> (r: Result<Packet<&'a [u8]>, Error>) {
        Packet::new(self.as_bytes())
    }
}

impl<'a, B: AsBytesMut + ?Sized> AsPacketMut<'a, Packet<&'a mut [u8]>> for B {
    open spec fn writable(&self) -> bool {
        true
    }

    open spec fn packet_bytes_mut(&self) -> Seq<u8> {
        self.bytes()
    }

    open spec fn parsed_mut(bytes: Seq<u8>) -> Result<(), Error> {
        check(bytes)
    }

    fn as_packet_mut(&'a mut self) -> (r: Result<Packet<&'a mut [u8]>, Error>) {
        Packet::new(self.as_bytes_mut())
    }
}

/// The checksum of a segment behind the pseudo-header of the IP packet that
/// carries it.
pub open spec fn checksum_of(v4: bool, ip: Seq<u8>, bytes: Seq<u8>) -> u16 {
    pseudo_header_checksum_of(pseudo_header(v4, ip, 17, bytes.len()), bytes, 6)
}

/// The bytes with the checksum of the segment stored in its field.
pub open spec fn with_checksum(v4: bool, ip: Seq<u8>, bytes: Seq<u8>) -> Seq<u8> {
    overwrite(bytes, 6, be_bytes_u16(checksum_of(v4, ip, bytes)))
}

/// Whether the checksum stored in the segment is the checksum of the segment.
pub open spec fn valid(v4: bool, ip: Seq<u8>, bytes: Seq<u8>) -> bool {
    checksum_of(v4, ip, bytes) == be_u16(bytes, 6)
}

/// Whether the IP packet is long enough to hold its addresses.
pub open spec fn addressed<B: AsBytes>(ip: &ip::Packet<B>) -> bool {
    &&& *ip is V4 ==> ip@.len() >= 20
    &&& *ip is V6 ==> ip@.len() >= 40
}

/// Once the checksum of the segment is stored in its field, the segment is
/// valid behind the same IP packet; storing it again changes nothing.
pub proof fn lemma_checksum_update(v4: bool, ip: Seq<u8>, bytes: Seq<u8>)
    requires
        bytes.len() >= 8,
    ensures
        valid(v4, ip, with_checksum(v4, ip, bytes)),
        with_checksum(v4, ip, with_checksum(v4, ip, bytes)) == with_checksum(v4, ip, bytes),
{
    let prefix = pseudo_header(v4, ip, 17, bytes.len());
    crate::checksum::lemma_stored_pseudo_header_checksum_is_valid(prefix, bytes, 6);
    let after = with_checksum(v4, ip, bytes);
    assert(after.len() == bytes.len());
    assert(with_checksum(v4, ip, after) =~= after);
}

/// A scope of writes to a segment that ends with the checksum set right:
/// every setter writes its field at once, `finish` recalculates the checksum
/// behind the IP packet that the scope was opened with. A scope has to be
/// finished: one that is only let go leaves the checksum as it was. For a
/// single write the `checked_set_` functions of the view open the scope and
/// finish it in one call.
#[must_use]
pub struct Checked<'a, 'b, BP: AsBytesMut, BI: AsBytes> {
    pub packet: &'a mut Packet<BP>,
    pub ip: &'b ip::Packet<BI>,
}

impl<'a, 'b, BP: AsBytesMut, BI: AsBytes> Checked<'a, 'b, BP, BI> {
    /// Source port.
    pub fn set_source(self, value: u16) -> (r: Result<Self, Error>)
        requires
            old(self.packet).splittable(),
        ensures
            match r {
                Ok(g) => g.packet@ == overwrite(old(self.packet)@, 0, be_bytes_u16(value))
                    && *final(g.packet) == *final(self.packet)
                    && g.ip == self.ip,
                Err(_) => false,
            },
    {
        let Checked { packet, ip } = self;
        match packet.set_source(value) {
            Ok(_) => Ok(Checked { packet, ip }),
            Err(e) => {
                let _ = packet.update_checksum(ip);
                Err(e)
            },
        }
    }

    /// Destination port.
    pub fn set_destination(self, value: u16) -> (r: Result<Self, Error>)
        requires
            old(self.packet).splittable(),
        ensures
            match r {
                Ok(g) => g.packet@ == overwrite(old(self.packet)@, 2, be_bytes_u16(value))
                    && *final(g.packet) == *final(self.packet)
                    && g.ip == self.ip,
                Err(_) => false,
            },
    {
        let Checked { packet, ip } = self;
        match packet.set_destination(value) {
            Ok(_) => Ok(Checked { packet, ip }),
            Err(e) => {
                let _ = packet.update_checksum(ip);
                Err(e)
            },
        }
    }
    /// End the scope: recalculate the checksum and store it.
    pub fn finish(self) -> (r: Result<(), Error>)
        requires
            old(self.packet).splittable(),
            
            addressed(self.ip),
        ensures
            r is Ok,
            (*final(self.packet))@ == with_checksum(
                *self.ip is V4,
                self.ip@,
                old(self.packet)@,
            ),
            valid(*self.ip is V4, self.ip@, (*final(self.packet))@),
    {
        let Checked { packet, ip } = self;
        let _ = packet.update_checksum(ip);
        Ok(())
    }
}

} // verus!
