//! Builders, and the work that they put off until the whole packet stands.

use vstd::prelude::*;
use crate::buffer::{zeros, Buffer};
use crate::bytes::AsBytes;
use crate::error::Error;

pub mod fixup;
pub mod stack;

verus! {

/// Byte orders that a field can be written in.
#[derive(Debug, PartialEq, Eq, Copy, Clone, Structural)]
pub enum Endianness {
    /// Least significant byte first.
    LITTLE,
    /// Most significant byte first.
    BIG,
}

/// A unit of work that is put off until the whole packet stands. It takes
/// the entire final buffer, finds its own layer in it by the offset and
/// length that it was made with, and succeeds or fails.
pub trait Finalizer {
    /// What the work makes of the buffer, and how it ends.
    spec fn finalized(&self, buffer: Seq<u8>) -> (Seq<u8>, Result<(), Error>);

    /// Run the finalizer on the given buffer.
    fn finalize(self, buffer: &mut [u8]) -> (r: Result<(), Error>)
        ensures
            (final(buffer)@, r) == self.finalized(old(buffer)@),
    ;
}

/// The work that a layer leaves to be done on the finished packet, by kind,
/// with where the layer lies.
#[derive(Debug, PartialEq, Eq, Copy, Clone, Structural)]
pub enum Fixup {
    /// Set the protocol of an Ethernet header by the IP version behind it.
    EtherProtocol { offset: usize, length: usize },
    /// Set the protocol of a cooked capture header by the IP version behind it.
    SllProtocol { offset: usize, length: usize },
    /// Set header length, total length and checksum of an IPv4 header.
    Ipv4 { offset: usize, length: usize },
    /// Set data offset and checksum of a TCP header, behind the IP header at
    /// `ip_offset`.
    Tcp { ip_offset: usize, ip_length: usize, length: usize, payload_length: usize },
    /// Set length and checksum of a UDP header, behind the IP header at
    /// `ip_offset`.
    Udp { ip_offset: usize, ip_length: usize, length: usize, endianness: Endianness },
    /// Set the checksum of a control message.
    Message { offset: usize, length: usize },
}

impl Finalizer for Fixup {
    open spec fn finalized(&self, buffer: Seq<u8>) -> (Seq<u8>, Result<(), Error>) {
        match *self {
            Fixup::EtherProtocol { offset, length } => fixup::link_protocol_fixed(
                buffer,
                offset as int,
                length as int,
                12,
            ),
            Fixup::SllProtocol { offset, length } => fixup::link_protocol_fixed(
                buffer,
                offset as int,
                length as int,
                14,
            ),
            Fixup::Ipv4 { offset, length } => fixup::ipv4_fixed(
                buffer,
                offset as int,
                length as int,
            ),
            Fixup::Tcp { ip_offset, ip_length, length, payload_length } => fixup::tcp_fixed(
                buffer,
                ip_offset as int,
                ip_length as int,
                length as int,
                payload_length as int,
            ),
            Fixup::Udp { ip_offset, ip_length, length, endianness } => fixup::udp_fixed(
                buffer,
                ip_offset as int,
                ip_length as int,
                length as int,
                endianness,
            ),
            Fixup::Message { offset, length } => fixup::message_fixed(
                buffer,
                offset as int,
                length as int,
            ),
        }
    }

    fn finalize(self, buffer: &mut [u8]) -> (r: Result<(), Error>) {
        match self {
            Fixup::EtherProtocol { offset, length } => fixup::fix_link_protocol(
                buffer,
                offset,
                length,
                12,
            ),
            Fixup::SllProtocol { offset, length } => fixup::fix_link_protocol(
                buffer,
                offset,
                length,
                14,
            ),
            Fixup::Ipv4 { offset, length } => fixup::fix_ipv4(buffer, offset, length),
            Fixup::Tcp { ip_offset, ip_length, length, payload_length } => fixup::fix_tcp(
                buffer,
                ip_offset,
                ip_length,
                length,
                payload_length,
            ),
            Fixup::Udp { ip_offset, ip_length, length, endianness } => fixup::fix_udp(
                buffer,
                ip_offset,
                ip_length,
                length,
                endianness,
            ),
            Fixup::Message { offset, length } => fixup::fix_message(buffer, offset, length),
        }
    }
}

/// What running the finalizers makes of the buffer: the one registered last
/// runs first, and the first failure ends the run.
pub open spec fn run(finalizers: Seq<Fixup>, buffer: Seq<u8>) -> (Seq<u8>, Result<(), Error>)
    decreases finalizers.len(),
{
    if finalizers.len() == 0 {
        (buffer, Ok(()))
    } else {
        let step = finalizers.last().finalized(buffer);
        if step.1 is Err {
            step
        } else {
            run(finalizers.drop_last(), step.0)
        }
    }
}

/// Takes care of grouping finalizers through the builder chain.
#[derive(Debug)]
pub struct Finalization(Vec<Fixup>);

impl View for Finalization {
    type V = Seq<Fixup>;

    closed spec fn view(&self) -> Seq<Fixup> {
        self.0@
    }
}

impl Default for Finalization {
    fn default() -> (r: Self)
        ensures
            r@ == Seq::<Fixup>::empty(),
    {
        Finalization(Vec::new())
    }
}

impl Finalization {
    /// Add a new finalizer.
    pub fn add(&mut self, finalizer: Fixup)
        ensures
            final(self)@ == old(self)@.push(finalizer),
    {
        self.0.push(finalizer);
    }

    /// Add a serie of finalizers.
    pub fn extend(&mut self, finalizers: Finalization)
        ensures
            final(self)@ == old(self)@ + finalizers@,
    {
        let mut other = finalizers;
        self.0.append(&mut other.0);
    }

    /// Finalize a buffer: run the finalizers in reverse of the order that
    /// they were added in, up to the first that fails.
    pub fn finalize(self, buffer: &mut [u8]) -> (r: Result<(), Error>)
        ensures
            (final(buffer)@, r) == run(self@, old(buffer)@),
    {
        let mut rest = self.0;
        while rest.len() > 0
            invariant
                run(rest@, buffer@) == run(self@, old(buffer)@),
            decreases rest.len(),
        {
            let ghost before = rest@;
            let last = rest.pop().unwrap();
            assert(rest@ =~= before.drop_last());
            match last.finalize(buffer) {
                Ok(_) => {},
                Err(e) => {
                    return Err(e);
                },
            }
        }
        Ok(())
    }

    /// How many finalizers there are.
    pub fn len(&self) -> (r: usize)
        ensures
            r == self@.len(),
    {
        self.0.len()
    }

    /// The finalizers, in the order that they were added in.
    pub fn into_vec(self) -> (r: Vec<Fixup>)
        ensures
            r@ == self@,
    {
        self.0
    }
}

/// A packet `Builder`.
pub trait Builder<B: Buffer>: Sized {
    /// The layers lie in the buffer as the builder needs them.
    spec fn wf(&self) -> bool;

    /// The buffer that the builder writes to.
    spec fn buffer_of(&self) -> B;

    /// The finalizers that were handed down to the builder.
    spec fn finalizers(&self) -> Seq<Fixup>;

    /// The header that a new builder starts with, in a layer of its own;
    /// none where the builder only hands the buffer on to the builder of the
    /// packet that it is to carry.
    spec fn fresh_header() -> Option<Seq<u8>>;

    /// What `build` runs on the buffer: the finalizers that were handed down
    /// and the builder's own behind them; or the error with which it refuses
    /// to build.
    spec fn closing(&self) -> Result<Seq<Fixup>, Error>;

    /// Create a new packet `Builder` with the given buffer. It claims a new
    /// layer for its header; where the buffer has no room for that, it fails.
    fn with(buffer: B) -> (r: Result<Self, Error>)
        requires
            buffer.wf(),
        ensures
            match r {
                Ok(builder) => {
                    &&& builder.wf()
                    &&& builder.finalizers() == Seq::<Fixup>::empty()
                    &&& match Self::fresh_header() {
                        Some(header) => buffer.claimed() + header.len() <= buffer.limit()
                            && claimed(buffer, builder.buffer_of(), header),
                        None => builder.buffer_of() == buffer,
                    }
                },
                Err(e) => e == Error::SmallBuffer && Self::fresh_header() is Some
                    && buffer.claimed() + Self::fresh_header()->Some_0.len() > buffer.limit(),
            },
    ;

    /// Access the finalizers.
    fn finalizer(&mut self) -> (r: &mut Finalization)
        ensures
            r@ == old(self).finalizers(),
            (*final(self)).finalizers() == final(r)@,
            (*final(self)).buffer_of() == old(self).buffer_of(),
            (*final(self)).wf() == old(self).wf(),
    ;

    /// Build the packet: run the finalizers on the whole buffer and hand out
    /// the backing storage.
    fn build(self) -> (r: Result<B::Inner, Error>)
        requires
            self.wf(),
        ensures
            match self.closing() {
                Err(e) => r == Err::<B::Inner, Error>(e),
                Ok(finalizers) => match r {
                    Ok(inner) => run(finalizers, self.buffer_of().backing()).1 is Ok && run(
                        finalizers,
                        self.buffer_of().backing(),
                    ).0 == inner.bytes(),
                    Err(e) => run(finalizers, self.buffer_of().backing()).1 == Err::<(), Error>(
                        e,
                    ),
                },
            },
    ;
}

/// A new layer that holds `header` was claimed in the buffer: it lies behind
/// all that was claimed before, which is as it was.
pub open spec fn claimed<B: Buffer>(before: B, after: B, header: Seq<u8>) -> bool {
    &&& after.wf()
    &&& after.limit() == before.limit()
    &&& after.layer_start() == before.claimed()
    &&& after.layer_len() == header.len()
    &&& after.claimed() == before.claimed() + header.len()
    &&& after.layer() == header
    &&& after.backing().take(after.claimed() as int) == before.backing().take(
        before.claimed() as int,
    ) + header
}

/// A new layer that holds `header` was claimed in the buffer, behind the
/// current layer, which was the last one and was rewritten to `below` first.
pub open spec fn stacked<B: Buffer>(before: B, after: B, below: Seq<u8>, header: Seq<u8>) -> bool {
    &&& after.wf()
    &&& after.limit() == before.limit()
    &&& after.layer_start() == before.claimed()
    &&& after.layer_len() == header.len()
    &&& after.claimed() == before.claimed() + header.len()
    &&& after.layer() == header
    &&& after.backing().take(after.claimed() as int) == before.backing().take(
        before.layer_start() as int,
    ) + below + header
}

/// The current layer of the buffer was rewritten to `layer`, of the same
/// length: everything else is as it was.
pub open spec fn rewritten<B: Buffer>(before: B, after: B, layer: Seq<u8>) -> bool {
    &&& after.wf()
    &&& after.limit() == before.limit()
    &&& after.layer_start() == before.layer_start()
    &&& after.layer_len() == before.layer_len()
    &&& after.claimed() == before.claimed()
    &&& after.layer() == layer
    &&& after.backing() == before.backing().take(before.layer_start() as int) + layer
        + before.backing().skip((before.layer_start() + before.layer_len()) as int)
}

/// The current layer of the buffer, the last one claimed, grew by `more`:
/// everything before it is as it was.
pub open spec fn grown<B: Buffer>(before: B, after: B, more: Seq<u8>) -> bool {
    &&& after.wf()
    &&& after.limit() == before.limit()
    &&& after.layer_start() == before.layer_start()
    &&& after.layer_len() == before.layer_len() + more.len()
    &&& after.claimed() == before.claimed() + more.len()
    &&& after.layer() == before.layer() + more
    &&& after.backing().take(after.claimed() as int) == before.backing().take(
        before.claimed() as int,
    ) + more
}

/// Layer containment: what is written to the current layer stays within it.
/// The buffer is as long as before, and every byte outside the layer is as it
/// was.
pub proof fn lemma_rewritten_keeps<B: Buffer>(before: B, after: B, layer: Seq<u8>, i: int)
    requires
        before.wf(),
        rewritten(before, after, layer),
        layer.len() == before.layer_len(),
        0 <= i < before.backing().len(),
        i < before.layer_start() || before.layer_start() + before.layer_len() <= i,
    ensures
        after.backing().len() == before.backing().len(),
        after.backing()[i] == before.backing()[i],
{
    before.lemma_wf();
}

/// A layer that was claimed and then rewritten is a layer that was claimed
/// with what was written.
pub proof fn lemma_claimed_rewritten<B: Buffer>(before: B, claim: B, after: B, layer: Seq<u8>)
    requires
        before.wf(),
        claimed(before, claim, claim.layer()),
        rewritten(claim, after, layer),
        layer.len() == claim.layer_len(),
    ensures
        claimed(before, after, layer),
{
    claim.lemma_wf();
    after.lemma_wf();
    before.lemma_wf();
    let start = claim.layer_start() as int;
    assert(after.backing().take(after.claimed() as int) =~= before.backing().take(
        before.claimed() as int,
    ) + layer);
}

/// A layer that was rewritten before the next was claimed behind it lies
/// below that one with what was written.
pub proof fn lemma_rewritten_claimed<B: Buffer>(
    before: B,
    mid: B,
    after: B,
    below: Seq<u8>,
    header: Seq<u8>,
)
    requires
        before.wf(),
        before.layer_start() + before.layer_len() == before.claimed(),
        below.len() == before.layer_len(),
        rewritten(before, mid, below),
        claimed(mid, after, header),
    ensures
        stacked(before, after, below, header),
{
    before.lemma_wf();
    mid.lemma_wf();
    assert(mid.backing().take(mid.claimed() as int) =~= before.backing().take(
        before.layer_start() as int,
    ) + below);
}

/// Claim a new layer of `size` zero bytes.
pub fn claim<B: Buffer>(buffer: &mut B, size: usize) -> (r: Result<(), Error>)
    requires
        old(buffer).wf(),
    ensures
        match r {
            Ok(_) => old(buffer).claimed() + size <= old(buffer).limit() && claimed(
                *old(buffer),
                *final(buffer),
                zeros(size as nat),
            ),
            Err(e) => e == Error::SmallBuffer && old(buffer).claimed() + size > old(buffer).limit(),
        },
{
    match buffer.next(size) {
        Ok(_) => {
            proof {
                buffer.lemma_wf();
                old(buffer).lemma_wf();
                let whole = buffer.backing().take(buffer.claimed() as int);
                assert(buffer.layer() =~= whole.subrange(
                    buffer.layer_start() as int,
                    buffer.claimed() as int,
                ));
                assert(buffer.layer() =~= zeros(size as nat));
            }
            Ok(())
        },
        Err(e) => Err(e),
    }
}

/// Set the byte at `at` of the current layer.
pub fn put<B: Buffer>(buffer: &mut B, at: usize, value: u8)
    requires
        old(buffer).wf(),
        at < old(buffer).layer_len(),
    ensures
        rewritten(*old(buffer), *final(buffer), old(buffer).layer().update(at as int, value)),
{
    let data = buffer.data_mut();
    data[at] = value;
}

/// Write `value` over the current layer from `at` on; all of it has to fit.
pub fn put_bytes<B: Buffer>(buffer: &mut B, at: usize, value: &[u8])
    requires
        old(buffer).wf(),
        at + value@.len() <= old(buffer).layer_len(),
    ensures
        rewritten(
            *old(buffer),
            *final(buffer),
            crate::endian::overwrite(old(buffer).layer(), at as int, value@),
        ),
{
    let data = buffer.data_mut();
    let _ = crate::endian::write_bytes(data, at, value);
}

/// Write the 16 bit number `value` at `at` of the current layer, most
/// significant byte first.
pub fn put_u16<B: Buffer>(buffer: &mut B, at: usize, value: u16)
    requires
        old(buffer).wf(),
        at + 2 <= old(buffer).layer_len(),
    ensures
        rewritten(
            *old(buffer),
            *final(buffer),
            crate::endian::overwrite(
                old(buffer).layer(),
                at as int,
                crate::endian::be_bytes_u16(value),
            ),
        ),
{
    let data = buffer.data_mut();
    let _ = crate::endian::write_u16(data, at, value);
}

/// Write the 32 bit number `value` at `at` of the current layer, most
/// significant byte first.
pub fn put_u32<B: Buffer>(buffer: &mut B, at: usize, value: u32)
    requires
        old(buffer).wf(),
        at + 4 <= old(buffer).layer_len(),
    ensures
        rewritten(
            *old(buffer),
            *final(buffer),
            crate::endian::overwrite(
                old(buffer).layer(),
                at as int,
                crate::endian::be_bytes_u32(value),
            ),
        ),
{
    let data = buffer.data_mut();
    let _ = crate::endian::write_u32(data, at, value);
}

/// Write the 64 bit number `value` at `at` of the current layer, most
/// significant byte first.
pub fn put_u64<B: Buffer>(buffer: &mut B, at: usize, value: u64)
    requires
        old(buffer).wf(),
        at + 8 <= old(buffer).layer_len(),
    ensures
        rewritten(
            *old(buffer),
            *final(buffer),
            crate::endian::overwrite(
                old(buffer).layer(),
                at as int,
                crate::endian::be_bytes_u64(value),
            ),
        ),
{
    let data = buffer.data_mut();
    let _ = crate::endian::write_u64(data, at, value);
}

/// Append `value` to the current layer, which has to be the last one
/// claimed, byte by byte. It fails as soon as the buffer has no room for
/// the next byte: what fits is appended by then.
pub fn append<B: Buffer>(buffer: &mut B, value: &[u8]) -> (r: Result<(), Error>)
    requires
        old(buffer).wf(),
        old(buffer).layer_start() + old(buffer).layer_len() == old(buffer).claimed(),
    ensures
        (*final(buffer)).wf(),
        match r {
            Ok(_) => old(buffer).claimed() + value@.len() <= old(buffer).limit() && grown(
                *old(buffer),
                *final(buffer),
                value@,
            ),
            Err(e) => {
                &&& e == Error::SmallBuffer
                &&& old(buffer).claimed() + value@.len() > old(buffer).limit()
                &&& grown(
                    *old(buffer),
                    *final(buffer),
                    value@.take(old(buffer).limit() - old(buffer).claimed()),
                )
            },
        },
{
    let mut i: usize = 0;
    proof {
        assert(value@.take(0) =~= Seq::<u8>::empty());
        assert(old(buffer).layer() + value@.take(0) =~= old(buffer).layer());
        assert(old(buffer).backing().take(old(buffer).claimed() as int) + value@.take(0)
            =~= old(buffer).backing().take(old(buffer).claimed() as int));
    }
    while i < value.len()
        invariant
            i <= value@.len(),
            old(buffer).wf(),
            old(buffer).layer_start() + old(buffer).layer_len() == old(buffer).claimed(),
            grown(*old(buffer), *buffer, value@.take(i as int)),
        decreases value@.len() - i,
    {
        let ghost before = *buffer;
        match buffer.more(1) {
            Ok(_) => {},
            Err(e) => {
                proof {
                    old(buffer).lemma_wf();
                    before.lemma_wf();
                    buffer.lemma_wf();
                    assert(i == old(buffer).limit() - old(buffer).claimed());
                    assert(buffer.layer() =~= before.layer());
                }
                return Err(e);
            },
        }
        let ghost mid = *buffer;
        let data = buffer.data_mut();
        let last: usize = data.len() - 1;
        data[last] = value[i];
        proof {
            before.lemma_wf();
            mid.lemma_wf();
            buffer.lemma_wf();
            old(buffer).lemma_wf();
            let start = before.layer_start() as int;
            let taken = value@.take(i as int);
            let next = value@.take(i + 1);
            assert(next =~= taken.push(value@[i as int]));
            let claimed_mid = mid.backing().take(mid.claimed() as int);
            assert(mid.layer() =~= claimed_mid.subrange(start, mid.claimed() as int));
            assert(before.layer() =~= before.backing().take(before.claimed() as int).subrange(
                start,
                before.claimed() as int,
            ));
            assert(mid.layer() =~= before.layer() + zeros(1));
            assert(buffer.layer() =~= old(buffer).layer() + next);
            assert(buffer.backing().take(buffer.claimed() as int) =~= old(buffer).backing().take(
                old(buffer).claimed() as int,
            ) + next);
        }
        i += 1;
    }
    proof {
        assert(value@.take(value@.len() as int) =~= value@);
        buffer.lemma_wf();
    }
    Ok(())
}

} // verus!
