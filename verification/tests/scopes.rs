use packet::icmp;
use packet::ip;
use packet::tcp;
use packet::udp;
use packet::{Builder, Error, PacketMut};

fn datagram() -> Vec<u8> {
    ip::v4::Builder::default()
        .source([10, 0, 0, 1]).unwrap()
        .destination([10, 0, 0, 2]).unwrap()
        .udp().unwrap()
            .source(7).unwrap()
            .destination(9).unwrap()
            .payload(b"hello").unwrap()
            .build().unwrap()
}

fn segment() -> Vec<u8> {
    ip::v4::Builder::default()
        .source([10, 0, 0, 1]).unwrap()
        .destination([10, 0, 0, 2]).unwrap()
        .tcp().unwrap()
            .source(7).unwrap()
            .destination(9).unwrap()
            .payload(b"hello").unwrap()
            .build().unwrap()
}

#[test]
fn a_scope_of_one_write_leaves_an_ipv4_header_valid() {
    let mut raw = datagram();
    let mut ip = ip::v4::Packet::new(&mut raw[..]).unwrap();
    assert!(ip.is_valid());
    let before = ip.checksum();

    ip.checked_set_id(0x4242).unwrap();
    assert_eq!(ip.id(), 0x4242);
    assert!(ip.is_valid());
    assert_ne!(ip.checksum(), before);

    ip.checked_set_ttl(3).unwrap();
    ip.checked_set_dscp(5).unwrap();
    ip.checked_set_ecn(2).unwrap();
    ip.checked_set_flags(ip::v4::Flags::dont_fragment()).unwrap();
    ip.checked_set_offset(0x100).unwrap();
    ip.checked_set_protocol(ip::Protocol::Tcp).unwrap();
    ip.checked_set_source([1, 2, 3, 4]).unwrap();
    ip.checked_set_destination([5, 6, 7, 8]).unwrap();
    assert!(ip.is_valid());
    assert_eq!(ip.ttl(), 3);
    assert_eq!(ip.dscp(), 5);
    assert_eq!(ip.ecn(), 2);
    assert_eq!(ip.flags(), ip::v4::Flags::dont_fragment());
    assert_eq!(ip.offset(), 0x100);
    assert_eq!(ip.protocol(), ip::Protocol::Tcp);
    assert_eq!(ip.source(), [1, 2, 3, 4]);
    assert_eq!(ip.destination(), [5, 6, 7, 8]);

    // A value that is refused changes no field, and the scope still ends.
    let sum = ip.checksum();
    assert_eq!(ip.checked_set_dscp(64).err(), Some(Error::InvalidValue));
    assert_eq!(ip.checked_set_ecn(4).err(), Some(Error::InvalidValue));
    assert_eq!(ip.checked_set_offset(0x2000).err(), Some(Error::InvalidValue));
    assert_eq!(ip.checksum(), sum);
    assert!(ip.is_valid());
}

#[test]
fn a_refused_value_ends_the_scope_with_the_checksum_set() {
    let mut raw = datagram();
    raw[8] ^= 1;
    let mut ip = ip::v4::Packet::new(&mut raw[..]).unwrap();
    assert!(!ip.is_valid());
    assert_eq!(ip.checked_set_offset(0xffff).err(), Some(Error::InvalidValue));
    assert!(ip.is_valid());
}

#[test]
fn a_scope_of_one_write_leaves_a_datagram_valid() {
    let mut raw = datagram();
    let mut ip = ip::v4::Packet::new(&mut raw[..]).unwrap();
    let (header, payload) = ip.split_mut();
    let ip = ip::Packet::from(ip::v4::Packet::unchecked(header));
    let mut udp = udp::Packet::new(payload).unwrap();
    assert!(udp.is_valid(&ip));

    udp.checked_set_source(&ip, 1234).unwrap();
    assert!(udp.is_valid(&ip));
    udp.checked_set_destination(&ip, 4321).unwrap();
    assert!(udp.is_valid(&ip));
    assert_eq!((udp.source(), udp.destination()), (1234, 4321));
}

#[test]
fn a_scope_of_one_write_leaves_a_segment_valid() {
    let mut raw = segment();
    let mut ip = ip::v4::Packet::new(&mut raw[..]).unwrap();
    let (header, payload) = ip.split_mut();
    let ip = ip::Packet::from(ip::v4::Packet::unchecked(header));
    let mut tcp = tcp::Packet::new(payload).unwrap();
    assert!(tcp.is_valid(&ip));

    tcp.checked_set_source(&ip, 1).unwrap();
    tcp.checked_set_destination(&ip, 2).unwrap();
    tcp.checked_set_sequence(&ip, 3).unwrap();
    tcp.checked_set_acknowledgment(&ip, 4).unwrap();
    tcp.checked_set_window(&ip, 5).unwrap();
    tcp.checked_set_pointer(&ip, 6).unwrap();
    assert!(tcp.is_valid(&ip));
    assert_eq!(tcp.source(), 1);
    assert_eq!(tcp.destination(), 2);
    assert_eq!(tcp.sequence(), 3);
    assert_eq!(tcp.acknowledgment(), 4);
    assert_eq!(tcp.window(), 5);
    assert_eq!(tcp.pointer(), 6);
    assert_eq!(tcp.offset(), 5);
}

#[test]
fn a_scope_of_one_write_leaves_a_control_message_valid() {
    let mut raw = [0u8; 8];
    raw[0] = 15;
    let mut information = icmp::information::Packet::new(&mut raw[..]).unwrap();
    information.checked_set_identifier(0x0102).unwrap();
    information.checked_set_sequence(0x0304).unwrap();
    assert_eq!(&raw[2..4], &[0xec, 0xf9]);
    let mut information = icmp::information::Packet::new(&mut raw[..]).unwrap();
    information.checked_make_reply().unwrap();
    assert_eq!(raw[0], 0);
    assert!(icmp::Packet::new(&raw[..]).unwrap().is_valid());
    let mut information = icmp::information::Packet::unchecked(&mut raw[..]);
    information.checked_make_request().unwrap();
    assert_eq!(raw[0], 8);
    assert!(icmp::Packet::new(&raw[..]).unwrap().is_valid());

    let mut raw = [0u8; 20];
    raw[0] = 13;
    let mut timestamp = icmp::timestamp::Packet::new(&mut raw[..]).unwrap();
    timestamp.checked_set_identifier(1).unwrap();
    timestamp.checked_set_sequence(2).unwrap();
    timestamp.checked_set_originate(3).unwrap();
    timestamp.checked_set_receive(4).unwrap();
    timestamp.checked_set_transmit(5).unwrap();
    assert_eq!(timestamp.originate(), 3);
    assert_eq!(timestamp.receive(), 4);
    assert_eq!(timestamp.transmit(), 5);
    assert!(icmp::Packet::new(&raw[..]).unwrap().is_valid());
    let mut timestamp = icmp::timestamp::Packet::unchecked(&mut raw[..]);
    timestamp.checked_make_request().unwrap();
    timestamp.checked_make_reply().unwrap();
    assert!(icmp::Packet::new(&raw[..]).unwrap().is_valid());
}
