use vstd::prelude::*;
use crate::checksum::{internet_checksum, internet_checksum_of};
use crate::endian::{be_bytes_u16, be_u16, le_bytes_u16, overwrite, write_u16, write_u16_le};
use crate::error::Error;
use crate::ether;
use crate::ip::v4::packet as four;
use crate::ip::v6::packet as six;
use crate::ip;
use crate::tcp;
use crate::udp;
use super::Endianness;

verus! {

/// What setting the protocol field of a link layer header makes of the whole
/// buffer. The header lies at `offset` and is `length` long, its protocol
/// field at `field` within it; the protocol is told by the version nibble of
/// the byte behind the header. Nothing is written where that byte is missing
/// or announces neither version 4 nor 6.
pub open spec fn link_protocol_fixed(out: Seq<u8>, offset: int, length: int, field: int) -> (
    Seq<u8>,
    Result<(), Error>,
) {
    if offset + length >= out.len() || length < field + 2 {
        (out, Err(Error::SmallBuffer))
    } else if out[offset + length] >> 4 == 4 {
        (overwrite(out, offset + field, be_bytes_u16(ether::Protocol::Ipv4.number())), Ok(()))
    } else if out[offset + length] >> 4 == 6 {
        (overwrite(out, offset + field, be_bytes_u16(ether::Protocol::Ipv6.number())), Ok(()))
    } else {
        (out, Err(Error::InvalidPacket))
    }
}

/// Set the protocol field of a link layer header by the version of the IP
/// packet behind it.
pub fn fix_link_protocol(out: &mut [u8], offset: usize, length: usize, field: usize) -> (r: Result<
    (),
    Error,
>)
    requires
        field <= 14,
    ensures
        (final(out)@, r) == link_protocol_fixed(
            old(out)@,
            offset as int,
            length as int,
            field as int,
        ),
{
    let total: usize = out.len();
    if offset >= total || length >= total - offset || length < field + 2 {
        return Err(Error::SmallBuffer);
    }
    let protocol: ether::Protocol = match out[offset + length] >> 4 {
        4 => ether::Protocol::Ipv4,
        6 => ether::Protocol::Ipv6,
        _ => {
            return Err(Error::InvalidPacket);
        },
    };
    let _ = write_u16(out, offset + field, protocol.into_number());
    Ok(())
}

/// The first byte of an IPv4 header of `length` bytes: version 4, and the
/// length in words of four bytes.
pub open spec fn ipv4_first_byte(length: int) -> u8 {
    0x40u8 | ((length / 4) % 0x100) as u8
}

/// The IPv4 header at `offset` with its first byte and its total length set:
/// the total length is all that lies between the start of the header and the
/// end of the buffer.
pub open spec fn ipv4_sized(out: Seq<u8>, offset: int, length: int) -> Seq<u8> {
    overwrite(
        out.update(offset, ipv4_first_byte(length)),
        offset + 2,
        be_bytes_u16(((out.len() - offset) % 0x1_0000) as u16),
    )
}

/// What finishing an IPv4 header makes of the whole buffer: first byte and
/// total length are set, then the checksum of the header. Nothing is written
/// where the layer is shorter than a header or reaches beyond the buffer.
pub open spec fn ipv4_fixed(out: Seq<u8>, offset: int, length: int) -> (
    Seq<u8>,
    Result<(), Error>,
) {
    if length < 20 || offset + length > out.len() {
        (out, Err(Error::SmallBuffer))
    } else {
        let sized = ipv4_sized(out, offset, length);
        let sum = internet_checksum_of(sized.subrange(offset, offset + (length / 4) * 4), 10);
        (overwrite(sized, offset + 10, be_bytes_u16(sum)), Ok(()))
    }
}

/// Finish an IPv4 header: set version and header length, the total length,
/// and the checksum of the header.
pub fn fix_ipv4(out: &mut [u8], offset: usize, length: usize) -> (r: Result<(), Error>)
    ensures
        (final(out)@, r) == ipv4_fixed(old(out)@, offset as int, length as int),
{
    let total: usize = out.len();
    if length < 20 || offset > total || length > total - offset {
        return Err(Error::SmallBuffer);
    }
    let header: usize = length / 4;
    out[offset] = 0x40u8 | ((header % 0x100) as u8);
    let _ = write_u16(out, offset + 2, ((total - offset) % 0x1_0000) as u16);
    let sum: u16 = internet_checksum(
        vstd::slice::slice_subrange(out, offset, offset + header * 4),
        10,
    );
    let _ = write_u16(out, offset + 10, sum);
    Ok(())
}

/// The byte of a TCP header that holds the data offset, set to the length of
/// the header in words of four bytes; its low nibble stays.
pub open spec fn tcp_offset_byte(old: u8, header: int) -> u8 {
    ((((header / 4) % 0x100) as u8) << 4) | (old & 0b1111)
}

/// What finishing a TCP header makes of the whole buffer. The IP header lies
/// at `ip_offset` and is `ip_length` long; the segment follows it and is
/// `length` long, `payload_length` of that being payload. The data offset is
/// set; then the IP header is parsed, and behind its pseudo-header the
/// checksum of the segment is calculated and set. Nothing is written where
/// the layers do not lie within the buffer, or the segment is shorter than a
/// header.
pub open spec fn tcp_fixed(
    out: Seq<u8>,
    ip_offset: int,
    ip_length: int,
    length: int,
    payload_length: int,
) -> (Seq<u8>, Result<(), Error>) {
    let start = ip_offset + ip_length;
    if ip_length < 1 || length < 20 || payload_length > length || start + length > out.len() {
        (out, Err(Error::SmallBuffer))
    } else {
        let sized = out.update(
            start + 12,
            tcp_offset_byte(out[start + 12], length - payload_length),
        );
        let header = sized.subrange(ip_offset, start);
        if ip::packet::check_header(header) is Err {
            (sized, ip::packet::check_header(header))
        } else {
            let sum = tcp::packet::checksum_of(
                header[0] >> 4 == 4,
                header,
                sized.subrange(start, start + length),
            );
            (overwrite(sized, start + 16, be_bytes_u16(sum)), Ok(()))
        }
    }
}

/// Finish a TCP header: set the data offset and the checksum.
pub fn fix_tcp(
    out: &mut [u8],
    ip_offset: usize,
    ip_length: usize,
    length: usize,
    payload_length: usize,
) -> (r: Result<(), Error>)
    ensures
        (final(out)@, r) == tcp_fixed(
            old(out)@,
            ip_offset as int,
            ip_length as int,
            length as int,
            payload_length as int,
        ),
{
    let total: usize = out.len();
    if ip_length < 1 || length < 20 || payload_length > length || ip_offset > total || ip_length
        > total - ip_offset || length > total - ip_offset - ip_length {
        return Err(Error::SmallBuffer);
    }
    let start: usize = ip_offset + ip_length;
    let old: u8 = out[start + 12];
    let words: u8 = (((length - payload_length) / 4) % 0x100) as u8;
    out[start + 12] = (words << 4) | (old & 0b1111);
    let sum: u16 = {
        let header = vstd::slice::slice_subrange(out, ip_offset, start);
        let packet = match ip::Packet::no_payload(header) {
            Ok(packet) => packet,
            Err(e) => {
                return Err(e);
            },
        };
        tcp::checksum(&packet, vstd::slice::slice_subrange(out, start, start + length))
    };
    let _ = write_u16(out, start + 16, sum);
    Ok(())
}

/// The two bytes of `n` in the given order.
pub open spec fn ordered_bytes_u16(endianness: Endianness, n: u16) -> Seq<u8> {
    match endianness {
        Endianness::BIG => be_bytes_u16(n),
        Endianness::LITTLE => le_bytes_u16(n),
    }
}

/// What finishing a UDP header makes of the whole buffer. The IP header lies
/// at `ip_offset` and is `ip_length` long; the datagram follows it and is
/// `length` long. The length is set; then the IP header is parsed, as
/// version 4 or else as version 6, and behind its pseudo-header the checksum
/// of the datagram is calculated and set. Nothing is written where the
/// layers do not lie within the buffer, or the datagram is shorter than a
/// header.
pub open spec fn udp_fixed(
    out: Seq<u8>,
    ip_offset: int,
    ip_length: int,
    length: int,
    endianness: Endianness,
) -> (Seq<u8>, Result<(), Error>) {
    let start = ip_offset + ip_length;
    if length < 8 || start + length > out.len() {
        (out, Err(Error::SmallBuffer))
    } else {
        let sized = overwrite(
            out,
            start + 4,
            ordered_bytes_u16(endianness, (length % 0x1_0000) as u16),
        );
        let header = sized.subrange(ip_offset, start);
        let v4 = four::check_header(header) is Ok;
        if !v4 && six::check(header) is Err {
            (sized, Err(Error::InvalidPacket))
        } else {
            let sum = udp::packet::checksum_of(v4, header, sized.subrange(start, start + length));
            (overwrite(sized, start + 6, ordered_bytes_u16(endianness, sum)), Ok(()))
        }
    }
}

/// Write `value` at `at` in the given byte order.
fn write_ordered(out: &mut [u8], at: usize, value: u16, endianness: Endianness) -> (r: Result<
    (),
    Error,
>)
    requires
        at + 2 <= old(out)@.len(),
    ensures
        r is Ok,
        final(out)@ == overwrite(old(out)@, at as int, ordered_bytes_u16(endianness, value)),
{
    match endianness {
        Endianness::BIG => write_u16(out, at, value),
        Endianness::LITTLE => write_u16_le(out, at, value),
    }
}

/// Finish a UDP header: set the length and the checksum.
pub fn fix_udp(
    out: &mut [u8],
    ip_offset: usize,
    ip_length: usize,
    length: usize,
    endianness: Endianness,
) -> (r: Result<(), Error>)
    ensures
        (final(out)@, r) == udp_fixed(
            old(out)@,
            ip_offset as int,
            ip_length as int,
            length as int,
            endianness,
        ),
{
    let total: usize = out.len();
    if length < 8 || ip_offset > total || ip_length > total - ip_offset || length > total
        - ip_offset - ip_length {
        return Err(Error::SmallBuffer);
    }
    let start: usize = ip_offset + ip_length;
    let _ = write_ordered(out, start + 4, (length % 0x1_0000) as u16, endianness);
    let sum: u16 = {
        let header = vstd::slice::slice_subrange(out, ip_offset, start);
        let datagram = vstd::slice::slice_subrange(out, start, start + length);
        match ip::v4::Packet::no_payload(header) {
            Ok(packet) => udp::checksum(&ip::Packet::V4(packet), datagram),
            Err(_) => match ip::v6::Packet::no_payload(header) {
                Ok(packet) => udp::checksum(&ip::Packet::V6(packet), datagram),
                Err(_) => {
                    return Err(Error::InvalidPacket);
                },
            },
        }
    };
    let _ = write_ordered(out, start + 6, sum, endianness);
    Ok(())
}

/// What finishing a control message makes of the whole buffer: the checksum
/// of the message, which lies at `offset` and is `length` long, is set.
/// Nothing is written where the message does not lie within the buffer or is
/// shorter than a header.
pub open spec fn message_fixed(out: Seq<u8>, offset: int, length: int) -> (
    Seq<u8>,
    Result<(), Error>,
) {
    if length < 4 || offset + length > out.len() {
        (out, Err(Error::SmallBuffer))
    } else {
        let sum = internet_checksum_of(out.subrange(offset, offset + length), 2);
        (overwrite(out, offset + 2, be_bytes_u16(sum)), Ok(()))
    }
}

/// Finish a control message: set its checksum.
pub fn fix_message(out: &mut [u8], offset: usize, length: usize) -> (r: Result<(), Error>)
    ensures
        (final(out)@, r) == message_fixed(old(out)@, offset as int, length as int),
{
    let total: usize = out.len();
    if length < 4 || offset > total || length > total - offset {
        return Err(Error::SmallBuffer);
    }
    let sum: u16 = internet_checksum(vstd::slice::slice_subrange(out, offset, offset + length), 2);
    let _ = write_u16(out, offset + 2, sum);
    Ok(())
}

/// What finishing an IPv4 header comes to, where the layer is a header of
/// whole words and the packet fits a 16 bit length: it succeeds; the header
/// announces version 4 and its own length, and the total length is that of
/// all that lies between the header's start and the buffer's end; the header
/// is valid; and every byte but the first, the total length and the checksum
/// is as it was.
pub proof fn lemma_ipv4_fixed(out: Seq<u8>, offset: int, length: int)
    requires
        0 <= offset,
        20 <= length <= 60,
        length % 4 == 0,
        offset + length <= out.len(),
        out.len() - offset <= 0xffff,
    ensures
        ({
            let done = ipv4_fixed(out, offset, length);
            &&& done.1 is Ok
            &&& done.0.len() == out.len()
            &&& done.0[offset] >> 4 == 4
            &&& four::header_len(done.0.skip(offset)) == length
            &&& be_u16(done.0, offset + 2) == out.len() - offset
            &&& four::valid(done.0.skip(offset))
            &&& forall|i: int|
                0 <= i < out.len() && i != offset && !(offset + 2 <= i < offset + 4) && !(offset
                    + 10 <= i < offset + 12) ==> done.0[i] == out[i]
        }),
{
    let words: u8 = (length / 4) as u8;
    assert(5 <= words <= 15 ==> (0x40u8 | words) >> 4 == 4 && (0x40u8 | words) & 0b1111 == words)
        by (bit_vector);
    let sized = ipv4_sized(out, offset, length);
    let head = sized.subrange(offset, offset + length);
    let sum = internet_checksum_of(head, 10);
    let done = overwrite(sized, offset + 10, be_bytes_u16(sum));
    assert(ipv4_fixed(out, offset, length).0 == done);
    crate::endian::lemma_u16_round_trip(
        out.update(offset, ipv4_first_byte(length)),
        offset + 2,
        (out.len() - offset) as u16,
    );
    assert(be_u16(done, offset + 2) == be_u16(sized, offset + 2));
    crate::checksum::lemma_stored_checksum_is_valid(head, 10);
    let tail = done.skip(offset);
    assert(tail[0] == done[offset]);
    assert(four::header_len(tail) == length);
    assert(tail.subrange(0, length) =~= overwrite(head, 10, be_bytes_u16(sum)));
    assert(be_u16(tail, 10) == be_u16(tail.subrange(0, length), 10));
}

/// What finishing a UDP header comes to, where an IPv4 header lies before
/// the datagram and the datagram fits a 16 bit length: it succeeds; the
/// length is that of the datagram; the datagram is valid behind the header;
/// and every byte but the length and the checksum is as it was.
pub proof fn lemma_udp_fixed(out: Seq<u8>, ip_offset: int, ip_length: int, length: int)
    requires
        0 <= ip_offset,
        0 <= ip_length,
        8 <= length <= 0xffff,
        ip_offset + ip_length + length <= out.len(),
        four::check_header(out.subrange(ip_offset, ip_offset + ip_length)) is Ok,
    ensures
        ({
            let start = ip_offset + ip_length;
            let done = udp_fixed(out, ip_offset, ip_length, length, Endianness::BIG);
            &&& done.1 is Ok
            &&& done.0.len() == out.len()
            &&& be_u16(done.0, start + 4) == length
            &&& udp::packet::valid(
                true,
                done.0.subrange(ip_offset, start),
                done.0.subrange(start, start + length),
            )
            &&& forall|i: int|
                0 <= i < out.len() && !(start + 4 <= i < start + 8) ==> done.0[i] == out[i]
        }),
{
    let start = ip_offset + ip_length;
    let sized = overwrite(out, start + 4, be_bytes_u16(length as u16));
    let header = sized.subrange(ip_offset, start);
    assert(header =~= out.subrange(ip_offset, start));
    let segment = sized.subrange(start, start + length);
    let sum = udp::packet::checksum_of(true, header, segment);
    let done = overwrite(sized, start + 6, be_bytes_u16(sum));
    assert(udp_fixed(out, ip_offset, ip_length, length, Endianness::BIG).0 == done);
    crate::endian::lemma_u16_round_trip(out, start + 4, length as u16);
    assert(be_u16(done, start + 4) == be_u16(sized, start + 4));
    let prefix = ip::packet::pseudo_header(true, header, 17, length as nat);
    crate::checksum::lemma_stored_pseudo_header_checksum_is_valid(prefix, segment, 6);
    assert(done.subrange(start, start + length) =~= overwrite(segment, 6, be_bytes_u16(sum)));
    assert(done.subrange(ip_offset, start) =~= header);
}

/// What finishing a TCP header comes to, where an IP header lies before the
/// segment and the header of the segment is one of whole words: it
/// succeeds; the data offset is the length of the header in words, and the
/// low nibble behind it is as it was; the segment is valid behind the IP
/// header; and every byte but that of the data offset and the checksum is as
/// it was.
pub proof fn lemma_tcp_fixed(
    out: Seq<u8>,
    ip_offset: int,
    ip_length: int,
    length: int,
    payload_length: int,
)
    requires
        0 <= ip_offset,
        1 <= ip_length,
        0 <= payload_length,
        20 <= length - payload_length <= 60,
        (length - payload_length) % 4 == 0,
        ip_offset + ip_length + length <= out.len(),
        ip::packet::check_header(out.subrange(ip_offset, ip_offset + ip_length)) is Ok,
    ensures
        ({
            let start = ip_offset + ip_length;
            let done = tcp_fixed(out, ip_offset, ip_length, length, payload_length);
            &&& done.1 is Ok
            &&& done.0.len() == out.len()
            &&& tcp::packet::header_len(done.0.skip(start)) == length - payload_length
            &&& done.0[start + 12] & 0b1111 == out[start + 12] & 0b1111
            &&& tcp::packet::valid(
                out[ip_offset] >> 4 == 4,
                done.0.subrange(ip_offset, start),
                done.0.subrange(start, start + length),
            )
            &&& forall|i: int|
                0 <= i < out.len() && i != start + 12 && !(start + 16 <= i < start + 18)
                    ==> done.0[i] == out[i]
        }),
{
    let start = ip_offset + ip_length;
    let old = out[start + 12];
    let words: u8 = ((length - payload_length) / 4) as u8;
    assert(words <= 15 ==> ((words << 4) | (old & 0b1111)) >> 4 == words && ((words << 4) | (old
        & 0b1111)) & 0b1111 == old & 0b1111) by (bit_vector);
    let sized = out.update(start + 12, tcp_offset_byte(old, length - payload_length));
    let header = sized.subrange(ip_offset, start);
    assert(header =~= out.subrange(ip_offset, start));
    let segment = sized.subrange(start, start + length);
    let sum = tcp::packet::checksum_of(header[0] >> 4 == 4, header, segment);
    let done = overwrite(sized, start + 16, be_bytes_u16(sum));
    assert(tcp_fixed(out, ip_offset, ip_length, length, payload_length).0 == done);
    let prefix = ip::packet::pseudo_header(header[0] >> 4 == 4, header, 6, length as nat);
    crate::checksum::lemma_stored_pseudo_header_checksum_is_valid(prefix, segment, 16);
    assert(done.subrange(start, start + length) =~= overwrite(segment, 16, be_bytes_u16(sum)));
    assert(done.subrange(ip_offset, start) =~= header);
    assert(done.skip(start)[12] == done[start + 12]);
}

/// What finishing a control message comes to: it succeeds; the message is
/// valid; and every byte but the checksum is as it was.
pub proof fn lemma_message_fixed(out: Seq<u8>, offset: int, length: int)
    requires
        0 <= offset,
        4 <= length,
        offset + length <= out.len(),
    ensures
        ({
            let done = message_fixed(out, offset, length);
            &&& done.1 is Ok
            &&& done.0.len() == out.len()
            &&& crate::checksum::is_valid_at(done.0.subrange(offset, offset + length), 2)
            &&& forall|i: int|
                0 <= i < out.len() && !(offset + 2 <= i < offset + 4) ==> done.0[i] == out[i]
        }),
{
    let message = out.subrange(offset, offset + length);
    let sum = internet_checksum_of(message, 2);
    let done = overwrite(out, offset + 2, be_bytes_u16(sum));
    crate::checksum::lemma_stored_checksum_is_valid(message, 2);
    assert(done.subrange(offset, offset + length) =~= overwrite(message, 2, be_bytes_u16(sum)));
}

/// What setting the protocol of a link layer header comes to, where an IP
/// packet lies behind the header: it succeeds; the protocol is that of the
/// version of the packet; and every byte but the protocol is as it was.
pub proof fn lemma_link_protocol_fixed(out: Seq<u8>, offset: int, length: int, field: int)
    requires
        0 <= offset,
        0 <= field,
        field + 2 <= length,
        offset + length < out.len(),
        out[offset + length] >> 4 == 4 || out[offset + length] >> 4 == 6,
    ensures
        ({
            let done = link_protocol_fixed(out, offset, length, field);
            &&& done.1 is Ok
            &&& done.0.len() == out.len()
            &&& ether::Protocol::of(be_u16(done.0, offset + field)) == if out[offset + length]
                >> 4 == 4 {
                ether::Protocol::Ipv4
            } else {
                ether::Protocol::Ipv6
            }
            &&& forall|i: int|
                0 <= i < out.len() && !(offset + field <= i < offset + field + 2) ==> done.0[i]
                    == out[i]
        }),
{
    crate::endian::lemma_u16_round_trip(out, offset + field, ether::Protocol::Ipv4.number());
    crate::endian::lemma_u16_round_trip(out, offset + field, ether::Protocol::Ipv6.number());
}

} // verus!
