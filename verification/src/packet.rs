//! What every packet view offers: its header and its payload.

use vstd::prelude::*;
use crate::error::Error;

verus! {

/// A view of some bytes as a packet: a header, and behind it a payload.
///
/// Where header and payload part is a function of the bytes alone; a view
/// caches nothing.
pub trait Packet {
    /// The bytes that the view wraps.
    spec fn raw(&self) -> Seq<u8>;

    /// Where the header ends and the payload starts.
    spec fn header_end(&self) -> int;

    /// Where the payload ends.
    spec fn payload_end(&self) -> int;

    /// Whether the bytes are enough to part header and payload.
    spec fn splittable(&self) -> bool;

    /// Header and payload lie within the bytes, one behind the other.
    proof fn lemma_split_bounds(&self)
        requires
            self.splittable(),
        ensures
            0 <= self.header_end() <= self.payload_end() <= self.raw().len(),
    ;

    /// Return a slice to the packet header.
    fn header(&self) -> (r: &[u8])
        requires
            self.splittable(),
        ensures
            r@ == self.raw().subrange(0, self.header_end()),
    {
        self.split().0
    }

    /// Return a slice to the packet payload.
    fn payload(&self) -> (r: &[u8])
        requires
            self.splittable(),
        ensures
            r@ == self.raw().subrange(self.header_end(), self.payload_end()),
    {
        self.split().1
    }

    /// Return both slices.
    fn split(&self) -> (r: (&[u8], &[u8]))
        requires
            self.splittable(),
        ensures
            r.0@ == self.raw().subrange(0, self.header_end()),
            r.1@ == self.raw().subrange(self.header_end(), self.payload_end()),
    ;
}

/// A packet view whose bytes can be written.
pub trait PacketMut: Packet {
    /// Returns a slice to the packet header. What is written through it
    /// replaces the header; every other byte stays.
    fn header_mut(&mut self) -> (r: &mut [u8])
        requires
            old(self).splittable(),
        ensures
            r@ == old(self).raw().subrange(0, old(self).header_end()),
            (*final(self)).raw() == final(r)@ + old(self).raw().skip(old(self).header_end()),
    {
        proof {
            self.lemma_split_bounds();
        }
        let (header, _) = self.split_mut();
        proof {
            let raw = old(self).raw();
            let h = old(self).header_end();
            let p = old(self).payload_end();
            assert(raw.subrange(h, p) + raw.skip(p) =~= raw.skip(h));
        }
        header
    }

    /// Returns a slice to the packet payload. What is written through it
    /// replaces the payload; every other byte stays.
    fn payload_mut(&mut self) -> (r: &mut [u8])
        requires
            old(self).splittable(),
        ensures
            r@ == old(self).raw().subrange(
                old(self).header_end(),
                old(self).payload_end(),
            ),
            (*final(self)).raw()
                == old(self).raw().subrange(0, old(self).header_end())
                    + final(r)@
                    + old(self).raw().skip(old(self).payload_end()),
    {
        let (_, payload) = self.split_mut();
        payload
    }

    /// Return both mutable slices. What is written through them replaces
    /// header and payload; the bytes behind the payload stay.
    fn split_mut(&mut self) -> (r: (&mut [u8], &mut [u8]))
        requires
            old(self).splittable(),
        ensures
            r.0@ == old(self).raw().subrange(0, old(self).header_end()),
            r.1@ == old(self).raw().subrange(
                old(self).header_end(),
                old(self).payload_end(),
            ),
            (*final(self)).raw() == final(r.0)@ + final(r.1)@ + old(self).raw().skip(
                old(self).payload_end(),
            ),
    ;
}

/// Something that can be read as a packet of kind `P`.
pub trait AsPacket<'a, P: Packet + 'a> {
    /// Whether the bytes can be got at.
    spec fn readable(&self) -> bool;

    /// The bytes that the packet is parsed from.
    spec fn packet_bytes(&self) -> Seq<u8>;

    /// What parsing the bytes as a packet of this kind gives.
    spec fn parsed(bytes: Seq<u8>) -> Result<(), Error>;

    /// Try converting to a packet.
    fn as_packet(&'a self) -> (r: Result<P, Error>)
        requires
            self.readable(),
        ensures
            match r {
                Ok(packet) => Self::parsed(self.packet_bytes()) is Ok && packet.raw()
                    == self.packet_bytes(),
                Err(e) => Self::parsed(self.packet_bytes()) == Err::<(), Error>(e),
            },
    ;
}

/// Something that can be read as a writable packet of kind `P`.
pub trait AsPacketMut<'a, P: PacketMut + 'a> {
    /// Whether the bytes can be got at.
    spec fn writable(&self) -> bool;

    /// The bytes that the packet is parsed from.
    spec fn packet_bytes_mut(&self) -> Seq<u8>;

    /// What parsing the bytes as a packet of this kind gives.
    spec fn parsed_mut(bytes: Seq<u8>) -> Result<(), Error>;

    /// Try converting to a packet.
    fn as_packet_mut(&'a mut self) -> (r: Result<P, Error>)
        requires
            old(self).writable(),
        ensures
            match r {
                Ok(packet) => Self::parsed_mut(old(self).packet_bytes_mut()) is Ok && packet.raw()
                    == old(self).packet_bytes_mut(),
                Err(e) => Self::parsed_mut(old(self).packet_bytes_mut()) == Err::<(), Error>(e),
            },
    ;
}

} // verus!
