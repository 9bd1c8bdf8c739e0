use packet::checksum::{accumulate, internet_checksum, pseudo_header_checksum};
use packet::ip;
use packet::Builder;
use packet::{icmp, tcp, udp};

#[test]
fn internet_checksum_of_known_bytes() {
    // The sum of the words is 0x2ddf0: folded 0xddf2, its complement 0x220d.
    let bytes = [0x00, 0x01, 0xf2, 0x03, 0xf4, 0xf5, 0xf6, 0xf7];
    assert_eq!(internet_checksum(&bytes, bytes.len()), 0x220d);
    // With the word at 2 left out: 0x0001 + 0xf4f5 + 0xf6f7 = 0x1ebed.
    assert_eq!(internet_checksum(&bytes, 2), !0xebeeu16);
    // A field that straddles two words is left out byte by byte.
    assert_eq!(internet_checksum(&bytes, 1), !(0x0003u32 + 0xf4f5 + 0xf6f7 - 0xffff) as u16);
}

#[test]
fn internet_checksum_pads_a_trailing_byte() {
    assert_eq!(internet_checksum(&[0x12, 0x34, 0x56], 3), !(0x1234u16 + 0x5600));
    assert_eq!(internet_checksum(&[0x12], 1), !0x1200u16);
    assert_eq!(
        internet_checksum(&[0x12, 0x34, 0x56], 3),
        internet_checksum(&[0x12, 0x34, 0x56, 0x00], 4)
    );
}

#[test]
fn internet_checksum_of_nothing_and_of_ones() {
    assert_eq!(internet_checksum(&[], 0), 0xffff);
    assert_eq!(internet_checksum(&[0, 0, 0, 0], 4), 0xffff);
    // Only a sum of zero folds to zero: all ones stay all ones.
    assert_eq!(internet_checksum(&[0xff, 0xff], 2), 0x0000);
    assert_eq!(internet_checksum(&[0xff, 0xff, 0xff, 0xff], 4), 0x0000);
    assert_eq!(internet_checksum(&[0xff, 0xff, 0x00, 0x01], 4), 0xfffe);
}

#[test]
fn checksum_does_not_overflow_on_long_input() {
    let bytes = vec![0xffu8; 300_000];
    assert_eq!(internet_checksum(&bytes, bytes.len()), 0x0000);
    assert_eq!(accumulate(0, &bytes, bytes.len()), 0xffff);
}

#[test]
fn pseudo_header_checksum_is_that_of_the_two_joined() {
    let prefix = [1u8, 2, 3, 4, 5, 6, 7, 8, 0, 17, 0, 5];
    let bytes = [9u8, 8, 7, 6, 5];
    let mut joined = prefix.to_vec();
    joined.extend_from_slice(&bytes);
    assert_eq!(
        pseudo_header_checksum(&prefix, &bytes, 2),
        internet_checksum(&joined, prefix.len() + 2)
    );
    assert_eq!(pseudo_header_checksum(&prefix, &bytes, 2), 0xe1cd);
}

#[test]
fn pseudo_header_of_both_versions() {
    let mut header = [0u8; 20];
    header[0] = 0x45;
    header[12..16].copy_from_slice(&[10, 0, 0, 1]);
    header[16..20].copy_from_slice(&[10, 0, 0, 2]);
    let ip = ip::Packet::no_payload(&header[..]).unwrap();
    assert_eq!(ip.pseudo_header(6, 0x1234), vec![10, 0, 0, 1, 10, 0, 0, 2, 0, 6, 0x12, 0x34]);
    // A length of more than sixteen bits loses what is above them.
    assert_eq!(ip.pseudo_header(6, 0x1_0005)[10..], [0, 5]);

    let mut header = [0u8; 40];
    header[0] = 0x60;
    header[8] = 0xfe;
    header[39] = 1;
    let ip = ip::Packet::no_payload(&header[..]).unwrap();
    let prefix = ip.pseudo_header(17, 8);
    assert_eq!(prefix.len(), 40);
    assert_eq!(&prefix[..16], &header[8..24]);
    assert_eq!(&prefix[16..32], &header[24..40]);
    assert_eq!(&prefix[32..], &[0, 17, 0, 8, 0, 0, 0, 0]);

    // The checksum behind an IPv6 header is the one that its own layout of
    // the pseudo-header gives: addresses, length in four bytes, three zero
    // bytes, the protocol.
    let segment = [0x12u8, 0x34, 0x56, 0x78, 0x00, 0x08, 0x00, 0x00];
    let mut layout = header[8..40].to_vec();
    layout.extend_from_slice(&[0, 0, 0, 8, 0, 0, 0, 17]);
    layout.extend_from_slice(&segment);
    assert_eq!(udp::checksum(&ip, &segment), internet_checksum(&layout, 40 + 6));
    assert_eq!(
        tcp::checksum(&ip, &[0u8; 20]),
        {
            let mut layout = header[8..40].to_vec();
            layout.extend_from_slice(&[0, 0, 0, 20, 0, 0, 0, 6]);
            layout.extend_from_slice(&[0u8; 20]);
            internet_checksum(&layout, 40 + 16)
        }
    );
}

#[test]
fn protocol_checksums_leave_their_field_out() {
    let mut header = [0x45u8, 0, 0, 20, 0, 0, 0, 0, 64, 17, 0, 0, 1, 2, 3, 4, 5, 6, 7, 8];
    let sum = ip::v4::checksum(&header);
    assert_eq!(sum, internet_checksum(&header, 10));
    header[10] = 0xab;
    header[11] = 0xcd;
    assert_eq!(ip::v4::checksum(&header), sum);
    header[9] = 6;
    assert_ne!(ip::v4::checksum(&header), sum);

    let mut message = [8u8, 0, 0, 0, 0, 1, 0, 2];
    let sum = icmp::checksum(&message);
    assert_eq!(sum, 0xf7fc);
    message[2] = 0x12;
    message[3] = 0x34;
    assert_eq!(icmp::checksum(&message), sum);
}

#[test]
fn checksum_is_the_same_when_calculated_twice() {
    let mut raw = [0x45u8, 0, 0, 20, 0x12, 0x34, 0, 0, 64, 17, 0, 0, 1, 2, 3, 4, 5, 6, 7, 8];
    let mut ip = ip::v4::Packet::new(&mut raw[..]).unwrap();
    ip.update_checksum().unwrap();
    let once = ip.checksum();
    assert!(ip.is_valid());
    ip.update_checksum().unwrap();
    assert_eq!(ip.checksum(), once);
    assert!(ip.is_valid());
}

#[test]
fn every_flipped_bit_makes_a_valid_header_invalid() {
    let mut raw = [0x45u8, 0, 0, 20, 0x12, 0x34, 0, 0, 64, 17, 0, 0, 1, 2, 3, 4, 5, 6, 7, 8];
    ip::v4::Packet::new(&mut raw[..]).unwrap().update_checksum().unwrap();
    for byte in 1..raw.len() {
        for bit in 0..8 {
            let mut flipped = raw;
            flipped[byte] ^= 1 << bit;
            let ip = ip::v4::Packet::unchecked(&flipped[..]);
            assert!(!ip.is_valid(), "bit {} of byte {}", bit, byte);
        }
    }
}

#[test]
fn every_flipped_bit_makes_a_valid_datagram_invalid() {
    let packet = ip::v4::Builder::default()
        .source([10, 0, 0, 1]).unwrap()
        .destination([10, 0, 0, 2]).unwrap()
        .udp().unwrap()
            .source(7).unwrap()
            .destination(9).unwrap()
            .payload(b"hello").unwrap()
            .build().unwrap();
    let ip = ip::Packet::no_payload(&packet[..20]).unwrap();
    assert!(udp::Packet::new(&packet[20..]).unwrap().is_valid(&ip));
    for byte in 20..packet.len() {
        for bit in 0..8 {
            let mut flipped = packet.clone();
            flipped[byte] ^= 1 << bit;
            let udp = udp::Packet::unchecked(&flipped[20..]);
            assert!(!udp.is_valid(&ip), "bit {} of byte {}", bit, byte);
        }
    }
}
