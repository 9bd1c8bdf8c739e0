use hwaddr::HwAddr;
use packet::arp;
use packet::ip;
use packet::udp;
use packet::{Error, Packet, PacketMut};

const RAW: [u8; 66] = [
        0x45, 0x00, 0x00, 0x42, 0x47, 0x07, 0x40, 0x00, 0x40, 0x11, 0x6e, 0xcc,
        0xc0, 0xa8, 0x01, 0x89, 0xc0, 0xa8, 0x01, 0xfe, 0xba, 0x2f, 0x00, 0x35,
        0x00, 0x2e, 0x1d, 0xf8, 0xbc, 0x81, 0x01, 0x00, 0x00, 0x01, 0x00, 0x00,
        0x00, 0x00, 0x00, 0x00, 0x03, 0x61, 0x70, 0x69, 0x0c, 0x73, 0x74, 0x65,
        0x61, 0x6d, 0x70, 0x6f, 0x77, 0x65, 0x72, 0x65, 0x64, 0x03, 0x63, 0x6f,
        0x6d, 0x00, 0x00, 0x1c, 0x00, 0x01,
    ];

#[test]
fn arp_values() {
    let raw = RAW;

    let ip = ip::v4::Packet::new(&raw[..]).unwrap();
    let udp = udp::Packet::new(ip.payload()).unwrap();

    assert!(ip.is_valid());
    assert!(udp.is_valid(&ip::Packet::from(&ip)));

    assert_eq!(udp.destination(), 53);
}

#[test]
fn arp_mutable() {
    let mut raw = RAW;

    let mut ip = ip::v4::Packet::new(&mut raw[..]).unwrap();
    let (ip, udp) = ip.split_mut();
    let ip = ip::Packet::from(ip::v4::Packet::unchecked(ip));
    let mut udp = udp::Packet::new(udp).unwrap();

    assert!(udp.is_valid(&ip));
    assert_eq!(udp.destination(), 53);

    udp.set_destination(9001).unwrap();
    assert_eq!(udp.destination(), 9001);
    assert!(!udp.is_valid(&ip));

    udp.update_checksum(&ip).unwrap();
    assert!(udp.is_valid(&ip));
}

#[test]
fn arp_mutable_checked() {
    let mut raw = RAW;

    let mut ip = ip::v4::Packet::new(&mut raw[..]).unwrap();
    let (ip, udp) = ip.split_mut();
    let ip = ip::Packet::from(ip::v4::Packet::unchecked(ip));
    let mut udp = udp::Packet::new(udp).unwrap();

    assert!(udp.is_valid(&ip));
    assert_eq!(udp.destination(), 53);

    udp.checked(&ip).set_destination(9001).unwrap().finish().unwrap();
    assert_eq!(udp.destination(), 9001);
    assert!(udp.is_valid(&ip));
}

#[test]
fn arp_request_is_read_and_written() {
    let mut raw = [
        0x00u8, 0x01, 0x08, 0x00, 0x06, 0x04, 0x00, 0x01, 0xe4, 0xb3, 0x18, 0x26, 0x63, 0xa3,
        0xc0, 0xa8, 0x01, 0x89, 0x00, 0x00, 0x00, 0x00, 0x00, 0x00, 0xc0, 0xa8, 0x01, 0xfe,
    ];
    let request = arp::Packet::new(&raw[..]).unwrap();
    assert_eq!(request.hardware_type(), 1);
    assert_eq!(request.protocol_type(), 0x0800);
    assert_eq!(request.hardware_address_length(), 6);
    assert_eq!(request.protocol_address_length(), 4);
    assert_eq!(request.operation(), 1);
    assert_eq!(request.sender_hardware_address(), "e4:b3:18:26:63:a3".parse::<HwAddr>().unwrap());
    assert_eq!(request.sender_protocol_address(), [192, 168, 1, 137]);
    assert_eq!(request.target_protocol_address(), [192, 168, 1, 254]);
    assert_eq!(Packet::header(&request).len(), 28);
    assert_eq!(request.payload().len(), 0);

    let mut reply = arp::Packet::new(&mut raw[..]).unwrap();
    reply.set_operation(2).unwrap();
    reply.set_target_hardware_address("00:23:69:63:59:be".parse().unwrap()).unwrap();
    reply.set_target_protocol_address([10, 0, 0, 1]).unwrap();
    assert_eq!(reply.operation(), 2);
    assert_eq!(&raw[18..28], &[0x00, 0x23, 0x69, 0x63, 0x59, 0xbe, 10, 0, 0, 1]);
    assert_eq!(arp::Packet::new(&raw[..27]).err(), Some(Error::SmallBuffer));
}
