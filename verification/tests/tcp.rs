use packet::ip;
use packet::tcp;
use packet::builder::Builder;
use packet::{Packet, PacketMut};

const RAW: [u8; 60] = [
        0x45, 0x00, 0x00, 0x3c, 0xc8, 0xa5, 0x40, 0x00, 0x40, 0x06, 0x9f, 0xd5,
        0xc0, 0xa8, 0x01, 0x89, 0x08, 0x08, 0x08, 0x08, 0x9b, 0x8a, 0x00, 0x50,
        0xde, 0x67, 0xc7, 0x4a, 0x00, 0x00, 0x00, 0x00, 0xa0, 0x02, 0x72, 0x10,
        0x3f, 0x5f, 0x00, 0x00, 0x02, 0x04, 0x05, 0xb4, 0x04, 0x02, 0x08, 0x0a,
        0x59, 0x2b, 0x29, 0x97, 0x00, 0x00, 0x00, 0x00, 0x01, 0x03, 0x03, 0x07,
    ];

#[test]
fn packet_values_tcp() {
    let raw = RAW;

    let ip = ip::v4::Packet::new(&raw[..]).unwrap();
    let tcp = tcp::Packet::new(ip.payload()).unwrap();

    assert!(ip.is_valid());
    assert!(tcp.is_valid(&ip::Packet::from(&ip)));

    assert_eq!(tcp.flags(), tcp::Flags::syn());
    assert_eq!(tcp.destination(), 80);
    assert_eq!(tcp.source(), 0x9b8a);
    assert_eq!(tcp.sequence(), 0xde67c74a);
    assert_eq!(tcp.acknowledgment(), 0);
    assert_eq!(tcp.offset(), 10);
    assert_eq!(tcp.window(), 0x7210);
    assert_eq!(tcp.checksum(), 0x3f5f);
    assert_eq!(tcp.pointer(), 0);
    assert_eq!(Packet::header(&tcp).len(), 40);
    assert_eq!(tcp.payload().len(), 0);
}

#[test]
fn packet_mutable_tcp() {
    let mut raw = RAW;

    let mut ip = ip::v4::Packet::new(&mut raw[..]).unwrap();
    let (ip, tcp) = ip.split_mut();
    let ip = ip::Packet::from(ip::v4::Packet::unchecked(ip));
    let mut tcp = tcp::Packet::new(tcp).unwrap();

    assert!(tcp.is_valid(&ip));
    assert_eq!(tcp.destination(), 80);

    tcp.set_destination(9001).unwrap();
    assert_eq!(tcp.destination(), 9001);
    assert!(!tcp.is_valid(&ip));

    tcp.update_checksum(&ip).unwrap();
    assert!(tcp.is_valid(&ip));
}

#[test]
fn packet_mutable_checked_tcp() {
    let mut raw = RAW;

    let mut ip = ip::v4::Packet::new(&mut raw[..]).unwrap();
    let (ip, tcp) = ip.split_mut();
    let ip = ip::Packet::from(ip::v4::Packet::unchecked(ip));
    let mut tcp = tcp::Packet::new(tcp).unwrap();

    assert!(tcp.is_valid(&ip));
    assert_eq!(tcp.destination(), 80);

    tcp.checked(&ip).set_destination(9001).unwrap().finish().unwrap();
    assert_eq!(tcp.destination(), 9001);
    assert!(tcp.is_valid(&ip));
}

#[test]
fn options_of_a_segment() {
    let raw = RAW;
    let ip = ip::v4::Packet::new(&raw[..]).unwrap();
    let tcp = tcp::Packet::new(ip.payload()).unwrap();
    let mut options = tcp.options();
    let mut numbers = Vec::new();
    while let Some(option) = options.next() {
        let option = option.unwrap();
        numbers.push((option.number(), option.length()));
    }
    assert_eq!(
        numbers,
        vec![
            (tcp::option::Number::MaximumSegmentSize, 4),
            (tcp::option::Number::SelectiveAcknowledgmentPermitted, 2),
            (tcp::option::Number::Timestamp, 10),
            (tcp::option::Number::NoOperation, 1),
            (tcp::option::Number::WindowScale, 3),
        ]
    );
}

#[test]
fn test_tcp_checksum_on_odd_length() {
    // Real traffic, with a payload of an odd number of bytes.
    let mut raw_tcp: [u8; 125] = [
        0x45, 0x00, 0x00, 0x7d, 0xf5, 0x31, 0x40, 0x00, 0x40, 0x06, 0x31, 0x47,
        0x0a, 0x00, 0x00, 0x01, 0x0a, 0x00, 0x00, 0x02, 0x92, 0xae, 0x04, 0xd2,
        0x2c, 0x2e, 0x5f, 0xf4, 0x5a, 0xd2, 0xd5, 0xb0, 0x80, 0x18, 0x01, 0xf6,
        0x91, 0x41, 0x00, 0x00, 0x01, 0x01, 0x08, 0x0a, 0x8c, 0xa6, 0xbf, 0xb9,
        0xdd, 0xc2, 0xa2, 0xc7, 0x47, 0x45, 0x54, 0x20, 0x2f, 0x20, 0x48, 0x54,
        0x54, 0x50, 0x2f, 0x31, 0x2e, 0x31, 0x0d, 0x0a, 0x48, 0x6f, 0x73, 0x74,
        0x3a, 0x20, 0x67, 0x6f, 0x6f, 0x64, 0x3a, 0x31, 0x32, 0x33, 0x34, 0x0d,
        0x0a, 0x55, 0x73, 0x65, 0x72, 0x2d, 0x41, 0x67, 0x65, 0x6e, 0x74, 0x3a,
        0x20, 0x63, 0x75, 0x72, 0x6c, 0x2f, 0x37, 0x2e, 0x38, 0x35, 0x2e, 0x30,
        0x0d, 0x0a, 0x41, 0x63, 0x63, 0x65, 0x70, 0x74, 0x3a, 0x20, 0x2a, 0x2f,
        0x2a, 0x0d, 0x0a, 0x0d, 0x0a,
    ];

    let mut ip_parse = ip::v4::Packet::unchecked(&mut raw_tcp[..]);
    let src_addr = ip_parse.source();
    let dst_addr = ip_parse.destination();

    // Ensure that the length of tcp packet is odd.
    assert!(ip_parse.payload().len() % 2 != 0);

    let mut tcp_parse = tcp::Packet::unchecked(ip_parse.payload_mut());
    let checksum_orig = tcp_parse.checksum();

    let fake_ip_header = ip::v4::Builder::default()
        .source(src_addr)
        .unwrap()
        .destination(dst_addr)
        .unwrap()
        .build()
        .unwrap();
    let fake_ip_header = ip::Packet::unchecked(&fake_ip_header);

    tcp_parse.set_checksum(0).unwrap();
    tcp_parse.update_checksum(&fake_ip_header).expect("checksum update failed");
    let checksum = tcp_parse.checksum();
    assert_eq!(checksum_orig, checksum);
    assert_eq!(checksum, 0x9141);
}
