use vstd::prelude::*;
use crate::bytes::{to_vec, AsBytes, AsBytesMut};
use crate::endian::{overwrite, write_bytes};
use crate::error::Error;
use crate::packet::{AsPacket, AsPacketMut, Packet as P, PacketMut as PM};
use crate::size;

verus! {

/// IPv6 packet parser.
#[derive(Copy, Clone)]
pub struct Packet<B> {
    buffer: B,
}

/// What parsing makes of the bytes: too few for the header, or not version 6.
pub open spec fn check(bytes: Seq<u8>) -> Result<(), Error> {
    if bytes.len() < 40 {
        Err(Error::SmallBuffer)
    } else if bytes[0] >> 4 != 6 {
        Err(Error::InvalidPacket)
    } else {
        Ok(())
    }
}

impl<B: AsBytes> View for Packet<B> {
    type V = Seq<u8>;

    closed spec fn view(&self) -> Seq<u8> {
        self.buffer.bytes()
    }
}

impl<B: AsBytes> AsBytes for Packet<B> {
    open spec fn bytes(&self) -> Seq<u8> {
        self@
    }

    proof fn lemma_bytes_len(&self) {
        self.buffer.lemma_bytes_len();
    }

    fn as_bytes(&self) -> (r: &[u8]) {
        self.buffer.as_bytes()
    }
}

impl<B: AsBytesMut> AsBytesMut for Packet<B> {
    fn as_bytes_mut(&mut self) -> (r: &mut [u8]) {
        self.buffer.as_bytes_mut()
    }
}

impl<B> size::header::Min for Packet<B> {
    open spec fn header_min() -> nat {
        40
    }

    fn min() -> (r: usize) {
        40
    }
}

impl<B> size::header::Max for Packet<B> {
    open spec fn header_max() -> nat {
        40
    }

    fn max() -> (r: usize) {
        40
    }
}

impl<B: AsBytes> size::header::Size for Packet<B> {
    open spec fn header_sized(&self) -> bool {
        true
    }

    open spec fn header_size(&self) -> nat {
        40
    }

    fn size(&self) -> (r: usize) {
        assert(self.header_sized());
        assert(self.header_size() == 40);
        40
    }
}

impl<B> size::payload::Min for Packet<B> {
    open spec fn payload_min() -> nat {
        0
    }

    fn min() -> (r: usize) {
        0
    }
}

impl<B> size::payload::Max for Packet<B> {
    open spec fn payload_max() -> nat {
        65535
    }

    fn max() -> (r: usize) {
        65535
    }
}

impl<B: AsBytes> size::payload::Size for Packet<B> {
    open spec fn payload_sized(&self) -> bool {
        self@.len() >= 40
    }

    open spec fn payload_size(&self) -> nat {
        (self@.len() - 40) as nat
    }

    fn size(&self) -> (r: usize) {
        assert(self.payload_sized());
        assert(self.payload_size() == (self@.len() - 40) as nat);
        self.buffer.as_bytes().len() - 40
    }
}

impl<B: AsBytes> Packet<B> {
    /// Create an IPv6 packet without checking the buffer.
    pub fn unchecked(buffer: B) -> (r: Packet<B>)
        ensures
            r@ == buffer.bytes(),
    {
        Packet { buffer }
    }

    /// Parse an IPv6 packet without checking the payload.
    pub fn no_payload(buffer: B) -> (r: Result<Packet<B>, Error>)
        ensures
            match r {
                Ok(packet) => check(buffer.bytes()) is Ok && packet@ == buffer.bytes(),
                Err(e) => check(buffer.bytes()) == Err::<(), Error>(e),
            },
    {
        let packet = Packet::unchecked(buffer);
        if packet.buffer.as_bytes().len() < 40 {
            return Err(Error::SmallBuffer);
        }
        if packet.buffer.as_bytes()[0] >> 4 != 6 {
            return Err(Error::InvalidPacket);
        }
        Ok(packet)
    }

    /// Parse an IPv6 packet, checking the buffer contents are correct.
    pub fn new(buffer: B) -> (r: Result<Packet<B>, Error>)
        ensures
            match r {
                Ok(packet) => check(buffer.bytes()) is Ok && packet@ == buffer.bytes(),
                Err(e) => check(buffer.bytes()) == Err::<(), Error>(e),
            },
    {
        Packet::no_payload(buffer)
    }

    /// Convert the packet to its owned version.
    pub fn to_owned(&self) -> (r: Packet<Vec<u8>>)
        ensures
            r@ == self@,
    {
        Packet { buffer: to_vec(&self.buffer) }
    }

    /// The bytes of the packet: header and payload, without what lies behind.
    pub fn as_ref(&self) -> (r: &[u8])
        requires
            self@.len() >= 40,
        ensures
            r@ == self@.take(self@.len() as int),
    {
        proof {
            self.lemma_bytes_len();
            assert(size::header::Size::header_sized(self));
            assert(size::payload::Size::payload_sized(self));
        }
        let size: usize = size::Size::size(self);
        vstd::slice::slice_subrange(self.buffer.as_bytes(), 0, size)
    }
}

impl<B: AsBytesMut> Packet<B> {
    /// The bytes of the packet, to be written: header and payload, without
    /// what lies behind, which stays.
    pub fn as_mut(&mut self) -> (r: &mut [u8])
        requires
            old(self)@.len() >= 40,
        ensures
            r@ == old(self)@.take(old(self)@.len() as int),
            (*final(self))@ == final(r)@ + old(self)@.skip(old(self)@.len() as int),
    {
        proof {
            self.lemma_bytes_len();
            assert(size::header::Size::header_sized(self));
            assert(size::payload::Size::payload_sized(self));
        }
        let size: usize = size::Size::size(self);
        let (front, _) = self.buffer.as_bytes_mut().split_at_mut(size);
        front
    }
}

impl<B: AsBytes> P for Packet<B> {
    open spec fn raw(&self) -> Seq<u8> {
        self@
    }

    open spec fn header_end(&self) -> int {
        40
    }

    open spec fn payload_end(&self) -> int {
        self@.len() as int
    }

    open spec fn splittable(&self) -> bool {
        self@.len() >= 40
    }

    proof fn lemma_split_bounds(&self) {
    }

    fn split(&self) -> (r: (&[u8], &[u8])) {
        assert(self.splittable());
        let r = self.buffer.as_bytes().split_at(40);
        assert(self.payload_end() == self@.len());
        r
    }
}

impl<B: AsBytesMut> PM for Packet<B> {
    fn split_mut(&mut self) -> (r: (&mut [u8], &mut [u8])) {
        assert(self.splittable());
        let r = self.buffer.as_bytes_mut().split_at_mut(40);
        proof {
            assert(old(self).payload_end() == old(self)@.len());
            assert(old(self)@.skip(old(self)@.len() as int) =~= Seq::<u8>::empty());
        }
        r
    }
}

impl<B: AsBytes> Packet<B> {
    /// Source IP address.
    pub fn source(&self) -> (r: [u8; 16])
        requires
            self@.len() >= 24,
        ensures
            r@ == self@.subrange(8, 24),
    {
        let bytes = self.buffer.as_bytes();
        let r: [u8; 16] = [
            bytes[8], bytes[9], bytes[10], bytes[11], bytes[12], bytes[13], bytes[14], bytes[15],
            bytes[16], bytes[17], bytes[18], bytes[19], bytes[20], bytes[21], bytes[22], bytes[23],
        ];
        assert(r@ =~= self@.subrange(8, 24));
        r
    }

    /// Destination IP address.
    pub fn destination(&self) -> (r: [u8; 16])
        requires
            self@.len() >= 40,
        ensures
            r@ == self@.subrange(24, 40),
    {
        let bytes = self.buffer.as_bytes();
        let r: [u8; 16] = [
            bytes[24], bytes[25], bytes[26], bytes[27], bytes[28], bytes[29], bytes[30], bytes[31],
            bytes[32], bytes[33], bytes[34], bytes[35], bytes[36], bytes[37], bytes[38], bytes[39],
        ];
        assert(r@ =~= self@.subrange(24, 40));
        r
    }
}

impl<B: AsBytesMut> Packet<B> {
    /// Source address.
    pub fn set_source(&mut self, value: [u8; 16]) -> (r: Result<&mut Self, Error>)
        requires
            old(self).splittable(),
        ensures
            match r {
                Ok(p) => p@ == overwrite(old(self)@, 8, value@) && *final(p) == *final(self),
                Err(_) => false,
            },
    {
        let bytes = self.header_mut();
        let _ = write_bytes(bytes, 8, value.as_slice());
        proof {
            assert(overwrite(old(self)@.subrange(0, 40), 8, value@) + old(self)@.skip(40)
                =~= overwrite(old(self)@, 8, value@));
        }
        Ok(self)
    }

    /// Destination address.
    pub fn set_destination(&mut self, value: [u8; 16]) -> (r: Result<&mut Self, Error>)
        requires
            old(self).splittable(),
        ensures
            match r {
                Ok(p) => p@ == overwrite(old(self)@, 24, value@) && *final(p) == *final(self),
                Err(_) => false,
            },
    {
        let bytes = self.header_mut();
        let _ = write_bytes(bytes, 24, value.as_slice());
        proof {
            assert(overwrite(old(self)@.subrange(0, 40), 24, value@) + old(self)@.skip(40)
                =~= overwrite(old(self)@, 24, value@));
        }
        Ok(self)
    }
}

/// The bytes with every field written, one after the other.
pub open spec fn with_fields(bytes: Seq<u8>, source: Seq<u8>, destination: Seq<u8>) -> Seq<u8> {
    let b0 = overwrite(bytes, 8, source);
    let b1 = overwrite(b0, 24, destination);
    b1
}

/// Round trip: every field that is written is read back as it was written,
/// whatever was written to the other fields.
pub proof fn lemma_round_trip(bytes: Seq<u8>, source: Seq<u8>, destination: Seq<u8>)
    requires
        bytes.len() >= 40,
        source.len() == 16,
        destination.len() == 16,
    ensures
        ({
            let written = with_fields(bytes, source, destination);
            &&& written.len() == bytes.len()
            &&& written.subrange(8, 24) == source
            &&& written.subrange(24, 40) == destination
        }),
{
    let written = with_fields(bytes, source, destination);
    assert(written.subrange(8, 24) =~= source);
    assert(written.subrange(24, 40) =~= destination);
}

impl<'a, B: AsBytes + ?Sized> AsPacket<'a, Packet<&'a [u8]>> for B {
    open spec fn readable(&self) -> bool {
        true
    }

    open spec fn packet_bytes(&self) -> Seq<u8> {
        self.bytes()
    }

    open spec fn parsed(bytes: Seq<u8>) -> Result<(), Error> {
        check(bytes)
    }

    fn as_packet(&'a self) -> (r: Result<Packet<&'a [u8]>, Error>) {
        Packet::new(self.as_bytes())
    }
}

impl<'a, B: AsBytesMut + ?Sized> AsPacketMut<'a, Packet<&'a mut [u8]>> for B {
    open spec fn writable(&self) -> bool {
        true
    }

    open spec fn packet_bytes_mut(&self) -> Seq<u8> {
        self.bytes()
    }

    open spec fn parsed_mut(bytes: Seq<u8>) -> Result<(), Error> {
        check(bytes)
    }

    fn as_packet_mut(&'a mut self) -> (r: Result<Packet<&'a mut [u8]>, Error>) {
        Packet::new(self.as_bytes_mut())
    }
}

} // verus!
