//! What finishing whole stacks of layers gives.

use vstd::prelude::*;
use crate::builder::fixup::{
    ipv4_fixed, lemma_ipv4_fixed, lemma_link_protocol_fixed, lemma_message_fixed,
    lemma_tcp_fixed, lemma_udp_fixed, link_protocol_fixed, message_fixed, tcp_fixed, udp_fixed,
};
use crate::builder::{run, Endianness, Finalizer, Fixup};
use crate::endian::be_u16;
use crate::ip::packet::pseudo_header;
use crate::ip::v4::packet as four;
use crate::tcp::packet as segment;
use crate::udp::packet as datagram;

verus! {

/// The finalizers that a UDP datagram in an IPv4 packet at the start of the
/// buffer is built with: the outer layer's first, the inner layer's last.
pub open spec fn ipv4_udp(length: usize) -> Seq<Fixup> {
    seq![
        Fixup::Ipv4 { offset: 0, length: 20 },
        Fixup::Udp { ip_offset: 0, ip_length: 20, length, endianness: Endianness::BIG },
    ]
}

/// Whether byte `i` is one that finishing a UDP datagram in an IPv4 packet
/// may write: the first byte, the total length and the checksum of the IPv4
/// header, the length and the checksum of the UDP header.
pub open spec fn ipv4_udp_writes(i: int) -> bool {
    i == 0 || 2 <= i < 4 || 10 <= i < 12 || 24 <= i < 28
}

/// A UDP datagram in an IPv4 packet, finished. Whatever the fields were set
/// to, finishing succeeds; the lengths are those of the packet and of the
/// datagram; the IPv4 header is valid, and the datagram is valid behind it;
/// every byte but those of the lengths and checksums is as it was set.
///
/// The checksum of the datagram is calculated before the IPv4 header is
/// finished, and still holds after: the pseudo-header takes nothing from the
/// header that finishing it writes.
pub proof fn lemma_ipv4_udp(out: Seq<u8>)
    requires
        28 <= out.len() <= 0xffff,
        out[0] == 0x45,
    ensures
        ({
            let done = run(ipv4_udp((out.len() - 20) as usize), out);
            &&& done.1 is Ok
            &&& done.0.len() == out.len()
            &&& four::header_len(done.0) == 20
            &&& be_u16(done.0, 2) == out.len()
            &&& be_u16(done.0, 24) == out.len() - 20
            &&& four::check(done.0) is Ok
            &&& four::valid(done.0)
            &&& datagram::check(done.0.skip(20)) is Ok
            &&& datagram::valid(true, done.0.subrange(0, 20), done.0.skip(20))
            &&& forall|i: int| 0 <= i < out.len() && !ipv4_udp_writes(i) ==> done.0[i] == out[i]
        }),
{
    let n = out.len() as int;
    let length = (n - 20) as usize;
    let fixups = ipv4_udp(length);
    let inner = Fixup::Udp { ip_offset: 0, ip_length: 20, length, endianness: Endianness::BIG };
    let outer = Fixup::Ipv4 { offset: 0, length: 20 };

    // The datagram is finished first.
    assert(0x45u8 >> 4 == 4 && (0x45u8 & 0b1111) == 5) by (bit_vector);
    assert(four::check_header(out.subrange(0, 20)) is Ok);
    lemma_udp_fixed(out, 0, 20, n - 20);
    let first = udp_fixed(out, 0, 20, n - 20, Endianness::BIG);

    // Then the header before it.
    lemma_ipv4_fixed(first.0, 0, 20);
    let second = ipv4_fixed(first.0, 0, 20);

    assert(run(fixups, out) == second) by {
        assert(fixups.last() == inner);
        assert(fixups.drop_last() =~= seq![outer]);
        assert(seq![outer].last() == outer);
        assert(seq![outer].drop_last() =~= Seq::<Fixup>::empty());
        assert(inner.finalized(out) == first);
        assert(outer.finalized(first.0) == second);
        reveal_with_fuel(run, 3);
    }
    lemma_stack_valid(first.0, second.0);
}

/// The header of a packet that was finished after the datagram in it leaves
/// the datagram valid, where it kept its addresses.
proof fn lemma_stack_valid(first: Seq<u8>, second: Seq<u8>)
    requires
        28 <= first.len() == second.len(),
        forall|i: int| 12 <= i < first.len() ==> second[i] == first[i],
        datagram::valid(true, first.subrange(0, 20), first.subrange(20, first.len() as int)),
        four::header_len(second) == 20,
        four::valid(second.skip(0)),
        be_u16(second, 2) == second.len(),
        be_u16(first, 24) == first.len() - 20,
        second[0] >> 4 == 4,
    ensures
        four::check(second) is Ok,
        four::valid(second),
        datagram::check(second.skip(20)) is Ok,
        datagram::valid(true, second.subrange(0, 20), second.skip(20)),
        be_u16(second, 24) == second.len() - 20,
{
    assert(second.skip(0) =~= second);
    assert(second.skip(20) =~= first.subrange(20, first.len() as int));
    assert(second.subrange(0, 20).subrange(12, 20) =~= first.subrange(0, 20).subrange(12, 20));
    let length = (first.len() - 20) as nat;
    assert(pseudo_header(true, second.subrange(0, 20), 17, length) == pseudo_header(
        true,
        first.subrange(0, 20),
        17,
        length,
    ));
    assert(be_u16(second.skip(20), 4) == be_u16(first, 24));
}

/// The finalizers that a TCP segment in an IPv4 packet at the start of the
/// buffer is built with.
pub open spec fn ipv4_tcp(length: usize, payload_length: usize) -> Seq<Fixup> {
    seq![
        Fixup::Ipv4 { offset: 0, length: 20 },
        Fixup::Tcp { ip_offset: 0, ip_length: 20, length, payload_length },
    ]
}

/// Whether byte `i` is one that finishing a TCP segment in an IPv4 packet may
/// write: the first byte, the total length and the checksum of the IPv4
/// header, the data offset and the checksum of the TCP header.
pub open spec fn ipv4_tcp_writes(i: int) -> bool {
    i == 0 || 2 <= i < 4 || 10 <= i < 12 || i == 32 || 36 <= i < 38
}

/// A TCP segment with a header of twenty bytes in an IPv4 packet, finished.
/// Whatever the fields were set to, finishing succeeds; the total length is
/// that of the packet and the data offset that of the header; the IPv4
/// header is valid, and the segment is valid behind it; the flags in the low
/// nibble before them are kept; every byte but those of the lengths and
/// checksums is as it was set.
pub proof fn lemma_ipv4_tcp(out: Seq<u8>)
    requires
        40 <= out.len() <= 0xffff,
        out[0] == 0x45,
    ensures
        ({
            let done = run(ipv4_tcp((out.len() - 20) as usize, (out.len() - 40) as usize), out);
            &&& done.1 is Ok
            &&& done.0.len() == out.len()
            &&& four::header_len(done.0) == 20
            &&& be_u16(done.0, 2) == out.len()
            &&& four::check(done.0) is Ok
            &&& four::valid(done.0)
            &&& segment::header_len(done.0.skip(20)) == 20
            &&& segment::check(done.0.skip(20)) is Ok
            &&& segment::valid(true, done.0.subrange(0, 20), done.0.skip(20))
            &&& done.0[32] & 0b1111 == out[32] & 0b1111
            &&& forall|i: int| 0 <= i < out.len() && !ipv4_tcp_writes(i) ==> done.0[i] == out[i]
        }),
{
    let n = out.len() as int;
    let length = (n - 20) as usize;
    let payload_length = (n - 40) as usize;
    let fixups = ipv4_tcp(length, payload_length);
    let inner = Fixup::Tcp { ip_offset: 0, ip_length: 20, length, payload_length };
    let outer = Fixup::Ipv4 { offset: 0, length: 20 };

    // The segment is finished first.
    assert(0x45u8 >> 4 == 4 && (0x45u8 & 0b1111) == 5) by (bit_vector);
    assert(four::check_header(out.subrange(0, 20)) is Ok);
    assert(crate::ip::packet::check_header(out.subrange(0, 20)) is Ok);
    lemma_tcp_fixed(out, 0, 20, n - 20, n - 40);
    let first = tcp_fixed(out, 0, 20, n - 20, n - 40);

    // Then the header before it.
    lemma_ipv4_fixed(first.0, 0, 20);
    let second = ipv4_fixed(first.0, 0, 20);

    assert(run(fixups, out) == second) by {
        assert(fixups.last() == inner);
        assert(fixups.drop_last() =~= seq![outer]);
        assert(seq![outer].last() == outer);
        assert(seq![outer].drop_last() =~= Seq::<Fixup>::empty());
        assert(inner.finalized(out) == first);
        assert(outer.finalized(first.0) == second);
        reveal_with_fuel(run, 3);
    }
    assert(second.0.skip(0) =~= second.0);
    assert(second.0.skip(20) =~= first.0.skip(20));
    assert(second.0.skip(20) =~= first.0.subrange(20, n));
    assert(second.0.subrange(0, 20).subrange(12, 20) =~= first.0.subrange(0, 20).subrange(
        12,
        20,
    ));
    assert(pseudo_header(true, second.0.subrange(0, 20), 6, (n - 20) as nat) == pseudo_header(
        true,
        first.0.subrange(0, 20),
        6,
        (n - 20) as nat,
    ));
}

/// The finalizers that a control message in an IPv4 packet at the start of
/// the buffer is built with.
pub open spec fn ipv4_message(length: usize) -> Seq<Fixup> {
    seq![Fixup::Ipv4 { offset: 0, length: 20 }, Fixup::Message { offset: 20, length }]
}

/// A control message in an IPv4 packet, finished. Whatever the fields were
/// set to, finishing succeeds; the total length is that of the packet; the
/// IPv4 header is valid, and so is the message; every byte but those of the
/// length and the checksums is as it was set.
pub proof fn lemma_ipv4_message(out: Seq<u8>)
    requires
        24 <= out.len() <= 0xffff,
        out[0] == 0x45,
    ensures
        ({
            let done = run(ipv4_message((out.len() - 20) as usize), out);
            &&& done.1 is Ok
            &&& done.0.len() == out.len()
            &&& four::header_len(done.0) == 20
            &&& be_u16(done.0, 2) == out.len()
            &&& four::check(done.0) is Ok
            &&& four::valid(done.0)
            &&& crate::checksum::is_valid_at(done.0.skip(20), 2)
            &&& forall|i: int|
                0 <= i < out.len() && i != 0 && !(2 <= i < 4) && !(10 <= i < 12) && !(22 <= i
                    < 24) ==> done.0[i] == out[i]
        }),
{
    let n = out.len() as int;
    let length = (n - 20) as usize;
    let fixups = ipv4_message(length);
    let inner = Fixup::Message { offset: 20, length };
    let outer = Fixup::Ipv4 { offset: 0, length: 20 };
    lemma_message_fixed(out, 20, n - 20);
    let first = message_fixed(out, 20, n - 20);
    lemma_ipv4_fixed(first.0, 0, 20);
    let second = ipv4_fixed(first.0, 0, 20);
    assert(run(fixups, out) == second) by {
        assert(fixups.last() == inner);
        assert(fixups.drop_last() =~= seq![outer]);
        assert(seq![outer].last() == outer);
        assert(seq![outer].drop_last() =~= Seq::<Fixup>::empty());
        assert(inner.finalized(out) == first);
        assert(outer.finalized(first.0) == second);
        reveal_with_fuel(run, 3);
    }
    assert(second.0.skip(0) =~= second.0);
    assert(second.0.skip(20) =~= first.0.subrange(20, n));
}

/// The finalizers that a UDP datagram in an IPv4 packet in an Ethernet frame
/// is built with: the outermost layer's first, the innermost layer's last.
pub open spec fn ether_ipv4_udp(length: usize) -> Seq<Fixup> {
    seq![
        Fixup::EtherProtocol { offset: 0, length: 14 },
        Fixup::Ipv4 { offset: 14, length: 20 },
        Fixup::Udp { ip_offset: 14, ip_length: 20, length, endianness: Endianness::BIG },
    ]
}

/// Whether byte `i` is one that finishing a UDP datagram in an IPv4 packet
/// in an Ethernet frame may write: the protocol of the frame; the first
/// byte, the total length and the checksum of the IPv4 header; the length
/// and the checksum of the UDP header.
pub open spec fn ether_ipv4_udp_writes(i: int) -> bool {
    12 <= i < 14 || i == 14 || 16 <= i < 18 || 24 <= i < 26 || 38 <= i < 42
}

/// A UDP datagram in an IPv4 packet in an Ethernet frame, finished. Whatever
/// the fields were set to, finishing succeeds; the frame announces IPv4; the
/// lengths are those of the packet and of the datagram; the IPv4 header is
/// valid, and the datagram is valid behind it; every byte but those of the
/// protocol, the lengths and the checksums is as it was set.
pub proof fn lemma_ether_ipv4_udp(out: Seq<u8>)
    requires
        42 <= out.len() <= 0xffff,
        out[14] == 0x45,
    ensures
        ({
            let done = run(ether_ipv4_udp((out.len() - 34) as usize), out);
            &&& done.1 is Ok
            &&& done.0.len() == out.len()
            &&& crate::ether::Protocol::of(be_u16(done.0, 12)) == crate::ether::Protocol::Ipv4
            &&& four::header_len(done.0.skip(14)) == 20
            &&& be_u16(done.0, 16) == out.len() - 14
            &&& be_u16(done.0, 38) == out.len() - 34
            &&& four::check(done.0.skip(14)) is Ok
            &&& four::valid(done.0.skip(14))
            &&& datagram::check(done.0.skip(34)) is Ok
            &&& datagram::valid(true, done.0.subrange(14, 34), done.0.skip(34))
            &&& forall|i: int|
                0 <= i < out.len() && !ether_ipv4_udp_writes(i) ==> done.0[i] == out[i]
        }),
{
    let n = out.len() as int;
    let length = (n - 34) as usize;
    let fixups = ether_ipv4_udp(length);
    let inner = Fixup::Udp { ip_offset: 14, ip_length: 20, length, endianness: Endianness::BIG };
    let middle = Fixup::Ipv4 { offset: 14, length: 20 };
    let outer = Fixup::EtherProtocol { offset: 0, length: 14 };

    // The datagram is finished first.
    assert(0x45u8 >> 4 == 4 && (0x45u8 & 0b1111) == 5) by (bit_vector);
    assert(four::check_header(out.subrange(14, 34)) is Ok);
    lemma_udp_fixed(out, 14, 20, n - 34);
    let first = udp_fixed(out, 14, 20, n - 34, Endianness::BIG);

    // Then the header before it.
    lemma_ipv4_fixed(first.0, 14, 20);
    let second = ipv4_fixed(first.0, 14, 20);

    // Then the frame, which finds version 4 behind its header.
    lemma_link_protocol_fixed(second.0, 0, 14, 12);
    let third = link_protocol_fixed(second.0, 0, 14, 12);

    assert(run(fixups, out) == third) by {
        assert(fixups.last() == inner);
        assert(fixups.drop_last() =~= seq![outer, middle]);
        assert(seq![outer, middle].last() == middle);
        assert(seq![outer, middle].drop_last() =~= seq![outer]);
        assert(seq![outer].last() == outer);
        assert(seq![outer].drop_last() =~= Seq::<Fixup>::empty());
        assert(inner.finalized(out) == first);
        assert(middle.finalized(first.0) == second);
        assert(outer.finalized(second.0) == third);
        reveal_with_fuel(run, 4);
    }
    lemma_framed_stack_valid(first.0, second.0, third.0);
}

/// Behind a frame whose header was finished last, and a packet whose header
/// was finished after the datagram in it, the packet and the datagram are
/// still valid, where each step kept what lies behind the bytes it wrote.
proof fn lemma_framed_stack_valid(first: Seq<u8>, second: Seq<u8>, third: Seq<u8>)
    requires
        42 <= first.len() == second.len() == third.len(),
        forall|i: int| 26 <= i < first.len() ==> second[i] == first[i],
        forall|i: int| 14 <= i < first.len() ==> third[i] == second[i],
        datagram::valid(true, first.subrange(14, 34), first.subrange(34, first.len() as int)),
        four::header_len(second.skip(14)) == 20,
        four::valid(second.skip(14)),
        be_u16(second, 16) == second.len() - 14,
        be_u16(first, 38) == first.len() - 34,
        second[14] >> 4 == 4,
    ensures
        four::header_len(third.skip(14)) == 20,
        four::check(third.skip(14)) is Ok,
        four::valid(third.skip(14)),
        datagram::check(third.skip(34)) is Ok,
        datagram::valid(true, third.subrange(14, 34), third.skip(34)),
        be_u16(third, 16) == third.len() - 14,
        be_u16(third, 38) == third.len() - 34,
{
    assert(third.skip(14) =~= second.skip(14));
    assert(third.skip(34) =~= first.subrange(34, first.len() as int));
    assert(third.subrange(14, 34).subrange(12, 20) =~= first.subrange(14, 34).subrange(12, 20));
    let length = (first.len() - 34) as nat;
    assert(pseudo_header(true, third.subrange(14, 34), 17, length) == pseudo_header(
        true,
        first.subrange(14, 34),
        17,
        length,
    ));
    assert(be_u16(third.skip(14), 2) == be_u16(second, 16));
    assert(be_u16(third.skip(34), 4) == be_u16(first, 38));
}

} // verus!
