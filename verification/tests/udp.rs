use packet::ip;
use packet::udp;
use packet::{Packet, PacketMut};

const RAW: [u8; 66] = [
        0x45, 0x00, 0x00, 0x42, 0x47, 0x07, 0x40, 0x00, 0x40, 0x11, 0x6e, 0xcc,
        0xc0, 0xa8, 0x01, 0x89, 0xc0, 0xa8, 0x01, 0xfe, 0xba, 0x2f, 0x00, 0x35,
        0x00, 0x2e, 0x1d, 0xf8, 0xbc, 0x81, 0x01, 0x00, 0x00, 0x01, 0x00, 0x00,
        0x00, 0x00, 0x00, 0x00, 0x03, 0x61, 0x70, 0x69, 0x0c, 0x73, 0x74, 0x65,
        0x61, 0x6d, 0x70, 0x6f, 0x77, 0x65, 0x72, 0x65, 0x64, 0x03, 0x63, 0x6f,
        0x6d, 0x00, 0x00, 0x1c, 0x00, 0x01,
    ];

#[test]
fn values() {
    let raw = RAW;

    let ip = ip::v4::Packet::new(&raw[..]).unwrap();
    let udp = udp::Packet::new(ip.payload()).unwrap();

    assert!(ip.is_valid());
    assert!(udp.is_valid(&ip::Packet::from(&ip)));

    assert_eq!(udp.destination(), 53);
    assert_eq!(udp.source(), 0xba2f);
    assert_eq!(udp.length(), 46);
    assert_eq!(udp.checksum(), 0x1df8);
    assert_eq!(udp.payload().len(), 38);
}

#[test]
fn mutable() {
    let mut raw = RAW;

    let mut ip = ip::v4::Packet::new(&mut raw[..]).unwrap();
    let (ip, udp) = ip.split_mut();
    let ip = ip::Packet::from(ip::v4::Packet::unchecked(ip));
    let mut udp = udp::Packet::new(udp).unwrap();

    assert!(udp.is_valid(&ip));
    assert_eq!(udp.destination(), 53);

    udp.set_destination(9001).unwrap();
    assert_eq!(udp.destination(), 9001);
    assert!(!udp.is_valid(&ip));

    udp.update_checksum(&ip).unwrap();
    assert!(udp.is_valid(&ip));
}

#[test]
fn mutable_checked() {
    let mut raw = RAW;

    let mut ip = ip::v4::Packet::new(&mut raw[..]).unwrap();
    let (ip, udp) = ip.split_mut();
    let ip = ip::Packet::from(ip::v4::Packet::unchecked(ip));
    let mut udp = udp::Packet::new(udp).unwrap();

    assert!(udp.is_valid(&ip));
    assert_eq!(udp.destination(), 53);

    let before = udp.checksum();
    udp.checked(&ip).set_destination(9001).unwrap().finish().unwrap();
    assert_eq!(udp.destination(), 9001);
    assert!(udp.is_valid(&ip));
    assert_ne!(udp.checksum(), before);
}

#[test]
fn test_checksum() {
    let raw: [u8; 68] = [
        0x45, 0x00, 0x00, 0x44, 0xad, 0x0b, 0x00, 0x00, 0x40, 0x11, 0x72, 0x72,
        0xac, 0x14, 0x02, 0xfd, 0xac, 0x14, 0x00, 0x06, 0xe5, 0x87, 0x00, 0x35,
        0x00, 0x30, 0xe3, 0x20, 0xab, 0xc9, 0x01, 0x00, 0x00, 0x01, 0x00, 0x00,
        0x00, 0x00, 0x00, 0x00, 0x09, 0x6d, 0x63, 0x63, 0x6c, 0x65, 0x6c, 0x6c,
        0x61, 0x6e, 0x02, 0x63, 0x73, 0x05, 0x6d, 0x69, 0x61, 0x6d, 0x69, 0x03,
        0x65, 0x64, 0x75, 0x00, 0x00, 0x01, 0x00, 0x01,
    ];

    let ip = ip::v4::Packet::new(&raw[..]).unwrap();
    let udp = udp::Packet::new(ip.payload()).unwrap();

    assert_eq!(udp::checksum(&ip::Packet::V4(ip), ip.payload()), udp.checksum());
    assert_eq!(udp.checksum(), 0xe320);
}

#[test]
fn short_datagram() {
    assert_eq!(udp::Packet::new(&[0u8; 7][..]).err(), Some(packet::Error::SmallBuffer));
    assert!(udp::Packet::new(&[0u8; 8][..]).is_ok());
    let mut raw = [0u8; 8];
    raw[5] = 9;
    assert!(udp::Packet::no_payload(&raw[..]).is_ok());
    assert_eq!(udp::Packet::new(&raw[..]).err(), Some(packet::Error::SmallBuffer));
}
