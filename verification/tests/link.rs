use hwaddr::HwAddr;
use packet::ether;
use packet::ip;
use packet::sll;
use packet::sll::PacketType;
use packet::tcp;
use packet::udp;
use packet::Packet;

#[test]
fn ether_packet_values() {
    let raw: [u8; 80] = [
        0x00, 0x23, 0x69, 0x63, 0x59, 0xbe, 0xe4, 0xb3, 0x18, 0x26, 0x63, 0xa3,
        0x08, 0x00, 0x45, 0x00, 0x00, 0x42, 0x47, 0x07, 0x40, 0x00, 0x40, 0x11,
        0x6e, 0xcc, 0xc0, 0xa8, 0x01, 0x89, 0xc0, 0xa8, 0x01, 0xfe, 0xba, 0x2f,
        0x00, 0x35, 0x00, 0x2e, 0x1d, 0xf8, 0xbc, 0x81, 0x01, 0x00, 0x00, 0x01,
        0x00, 0x00, 0x00, 0x00, 0x00, 0x00, 0x03, 0x61, 0x70, 0x69, 0x0c, 0x73,
        0x74, 0x65, 0x61, 0x6d, 0x70, 0x6f, 0x77, 0x65, 0x72, 0x65, 0x64, 0x03,
        0x63, 0x6f, 0x6d, 0x00, 0x00, 0x1c, 0x00, 0x01,
    ];

    let ether = ether::Packet::new(&raw[..]).unwrap();
    let ip = ip::v4::Packet::new(ether.payload()).unwrap();
    let udp = udp::Packet::new(ip.payload()).unwrap();

    assert!(ip.is_valid());
    assert!(udp.is_valid(&ip::Packet::from(&ip)));

    assert_eq!(ether.destination(), "00:23:69:63:59:be".parse::<HwAddr>().unwrap());
    assert_eq!(ether.source(), "e4:b3:18:26:63:a3".parse::<HwAddr>().unwrap());
    assert_eq!(ether.protocol(), ether::Protocol::Ipv4);
}

#[test]
fn ether_addresses_are_written() {
    let mut raw = [0u8; 14];
    let mut ether = ether::Packet::new(&mut raw[..]).unwrap();
    let source: HwAddr = "e4:b3:18:26:63:a3".parse().unwrap();
    let destination: HwAddr = "00:23:69:63:59:be".parse().unwrap();
    ether.set_source(source).unwrap();
    ether.set_destination(destination).unwrap();
    ether.set_protocol(ether::Protocol::Arp).unwrap();
    assert_eq!(ether.source(), source);
    assert_eq!(ether.destination(), destination);
    assert_eq!(
        raw,
        [0x00, 0x23, 0x69, 0x63, 0x59, 0xbe, 0xe4, 0xb3, 0x18, 0x26, 0x63, 0xa3, 0x08, 0x06]
    );
    assert_eq!(ether::Packet::new(&[0u8; 13][..]).err(), Some(packet::Error::SmallBuffer));
}

#[test]
fn sll_packet_values() {
    let raw: [u8; 56] = [
        0x00, 0x00, 0xff, 0xfe, 0x00, 0x00, 0x00, 0x00, 0x00, 0x00, 0x00, 0x00,
        0x00, 0x00, 0x08, 0x00, 0x45, 0x00, 0x00, 0x28, 0xfd, 0x00, 0x40, 0x00,
        0x40, 0x06, 0x65, 0xe7, 0x12, 0xad, 0xbb, 0x39, 0x0a, 0x00, 0x00, 0x02,
        0x01, 0xbb, 0x9f, 0xf5, 0x3f, 0x8d, 0x15, 0xd7, 0xbe, 0x71, 0x2d, 0xe8,
        0x50, 0x10, 0x7f, 0xb0, 0x74, 0xcd, 0x00, 0x00,
    ];

    let sll = sll::Packet::new(&raw[..]).unwrap();
    let ip = ip::v4::Packet::new(sll.payload()).unwrap();
    let tcp = tcp::Packet::new(ip.payload()).unwrap();

    assert!(ip.is_valid());
    assert!(tcp.is_valid(&ip::Packet::from(&ip)));

    assert_eq!(sll.packet_type(), PacketType::LinuxSllHost);
    assert_eq!(sll.ll_address_type(), 65534);
    assert_eq!(sll.ll_address_length(), 0);
    assert_eq!(sll.unused(), 0);
    assert_eq!(sll.protocol(), ether::Protocol::Ipv4);
}
