use packet::ip;
use packet::ip::v4::Flags;
use packet::{Error, Packet, PacketMut};

const RAW: [u8; 20] = [
        0x45, 0x00, 0x00, 0x34, 0x2d, 0x87, 0x00, 0x00, 0x2c, 0x06, 0x5c, 0x74,
        0x42, 0x66, 0x01, 0x6c, 0xc0, 0xa8, 0x00, 0x4f,
    ];

#[test]
fn short_packet() {
    assert!(ip::v4::Packet::no_payload(&[64; 10][..]).is_err());
    assert!(ip::v4::Packet::no_payload(&[64; 19][..]).is_err());
    assert!(ip::v4::Packet::no_payload(&[64; 20][..]).is_ok());
}

#[test]
fn short_packet_errors() {
    assert_eq!(ip::v4::Packet::new(&[0u8; 19][..]).err(), Some(Error::SmallBuffer));
    assert_eq!(ip::v4::Packet::new(&[0u8; 20][..]).err(), Some(Error::InvalidPacket));
    assert!(ip::v4::Packet::no_payload(&[0x40u8; 20][..]).is_ok());
    // The header announced is longer than the bytes.
    let mut long = [0u8; 20];
    long[0] = 0x46;
    assert_eq!(ip::v4::Packet::no_payload(&long[..]).err(), Some(Error::SmallBuffer));
    // The total length announced is more than the bytes.
    let raw = RAW;
    assert!(ip::v4::Packet::no_payload(&raw[..]).is_ok());
    assert_eq!(ip::v4::Packet::new(&raw[..]).err(), Some(Error::SmallBuffer));
}

#[test]
fn packet_values() {
    let raw = RAW;
    let ip = ip::v4::Packet::no_payload(&raw[..]).unwrap();

    assert_eq!(ip.version(), 4);
    assert_eq!(ip.header(), 5);
    assert_eq!(ip.dscp(), 0);
    assert_eq!(ip.ecn(), 0);
    assert_eq!(ip.length(), 52);
    assert_eq!(ip.id(), 0x2d87);
    assert!(ip.flags().is_empty());
    assert_eq!(ip.offset(), 0);
    assert_eq!(ip.ttl(), 0x2c);
    assert_eq!(ip.protocol(), ip::Protocol::Tcp);
    assert_eq!(ip.checksum(), 0x5c74);
    assert!(ip.is_valid());
    assert_eq!(ip.source(), [66, 102, 1, 108]);
    assert_eq!(ip.destination(), [192, 168, 0, 79]);
}

#[test]
fn owned() {
    let raw: Vec<u8> = RAW.to_vec();
    let ip = ip::v4::Packet::no_payload(raw).unwrap();

    assert_eq!(ip.checksum(), 0x5c74);
    assert!(ip.is_valid());
    let copy = ip.to_owned();
    assert_eq!(copy.id(), 0x2d87);
    assert!(copy.is_valid());
}

#[test]
fn packet_mutable() {
    let mut raw = RAW;
    let mut ip = ip::v4::Packet::no_payload(&mut raw[..]).unwrap();

    assert_eq!(ip.id(), 0x2d87);
    assert!(ip.is_valid());

    ip.set_id(0x4242).unwrap();
    assert_eq!(ip.id(), 0x4242);
    assert!(!ip.is_valid());

    ip.update_checksum().unwrap();
    assert!(ip.is_valid());
}

#[test]
fn packet_mutable_checked() {
    let mut raw = RAW;
    let mut ip = ip::v4::Packet::no_payload(&mut raw[..]).unwrap();

    assert_eq!(ip.id(), 0x2d87);
    assert!(ip.is_valid());

    ip.checked().set_id(0x4242).unwrap().finish().unwrap();
    assert!(ip.is_valid());
    assert_eq!(ip.id(), 0x4242);
}

#[test]
fn checked_scope_sets_every_field() {
    let mut raw = RAW;
    let mut ip = ip::v4::Packet::no_payload(&mut raw[..]).unwrap();
    ip.checked()
        .set_dscp(0b10_1010).unwrap()
        .set_ecn(0b01).unwrap()
        .set_flags(Flags::dont_fragment()).unwrap()
        .set_offset(0x123).unwrap()
        .set_ttl(7).unwrap()
        .set_protocol(ip::Protocol::Udp).unwrap()
        .set_source([10, 0, 0, 1]).unwrap()
        .set_destination([10, 0, 0, 2]).unwrap()
        .finish().unwrap();
    assert!(ip.is_valid());
    assert_eq!(ip.dscp(), 0b10_1010);
    assert_eq!(ip.ecn(), 0b01);
    assert_eq!(ip.flags(), Flags::dont_fragment());
    assert_eq!(ip.offset(), 0x123);
    assert_eq!(ip.ttl(), 7);
    assert_eq!(ip.protocol(), ip::Protocol::Udp);
    assert_eq!(ip.source(), [10, 0, 0, 1]);
    assert_eq!(ip.destination(), [10, 0, 0, 2]);
    assert_eq!(ip.header(), 5);
    assert_eq!(ip.id(), 0x2d87);
}

#[test]
fn checked_scope_ends_on_a_refused_value() {
    let mut raw = RAW;
    raw[8] = 1;
    let mut ip = ip::v4::Packet::no_payload(&mut raw[..]).unwrap();
    assert!(!ip.is_valid());
    assert_eq!(ip.checked().set_dscp(0x40).err(), Some(Error::InvalidValue));
    assert!(ip.is_valid());
    assert_eq!(ip.set_ecn(4).err(), Some(Error::InvalidValue));
    assert_eq!(ip.set_offset(0x2000).err(), Some(Error::InvalidValue));
}

#[test]
fn split_parts_header_and_payload() {
    let mut raw = [0u8; 30];
    raw[..20].copy_from_slice(&RAW);
    raw[3] = 24;
    for (i, byte) in raw[20..].iter_mut().enumerate() {
        *byte = i as u8 + 1;
    }
    let mut ip = ip::v4::Packet::new(&mut raw[..]).unwrap();
    assert_eq!(Packet::header(&ip).len(), 20);
    assert_eq!(ip.payload(), &[1, 2, 3, 4]);
    assert_eq!(ip.as_ref().len(), 24);
    {
        let (header, payload) = ip.split_mut();
        assert_eq!(header.len(), 20);
        payload[0] = 9;
    }
    assert_eq!(ip.payload(), &[9, 2, 3, 4]);
    assert_eq!(raw[20], 9);
    assert_eq!(raw[24], 5);
}

#[test]
fn options_are_walked() {
    let mut raw = [0u8; 28];
    raw[..20].copy_from_slice(&RAW);
    raw[0] = 0x47;
    // A router alert, a no-operation, and the end of the list.
    raw[20..28].copy_from_slice(&[0x94, 4, 0, 0, 1, 0, 0, 0]);
    let ip = ip::v4::Packet::no_payload(&raw[..]).unwrap();
    let mut options = ip.options();
    let first = options.next().unwrap().unwrap();
    assert!(first.is_copied());
    assert_eq!(first.class(), ip::v4::option::Class::Control);
    assert_eq!(first.number(), ip::v4::option::Number::RouterAlert);
    assert_eq!(first.length(), 4);
    assert_eq!(first.payload(), &[0, 0]);
    let second = options.next().unwrap().unwrap();
    assert_eq!(second.number(), ip::v4::option::Number::NoOperation);
    assert_eq!(second.length(), 1);
    assert!(options.next().is_none());
}

#[test]
fn option_with_a_missing_length() {
    assert_eq!(ip::v4::Option::new(&[][..]).err(), Some(Error::SmallBuffer));
    assert_eq!(ip::v4::Option::new(&[0x94u8][..]).err(), Some(Error::SmallBuffer));
    assert_eq!(ip::v4::Option::new(&[0x94u8, 4, 0][..]).err(), Some(Error::SmallBuffer));
    assert!(ip::v4::Option::new(&[0x01u8][..]).is_ok());
    let mut options = ip::v4::packet::OptionIter::new(&[0x94u8, 0, 0][..]);
    assert_eq!(options.next().unwrap().err(), Some(Error::InvalidPacket));
}
