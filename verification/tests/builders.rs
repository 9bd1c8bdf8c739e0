use hwaddr::HwAddr;
use packet::buffer;
use packet::builder::{Builder, Endianness, Finalization, Fixup};
use packet::ether;
use packet::icmp;
use packet::ip;
use packet::sll;
use packet::sll::PacketType;
use packet::tcp;
use packet::udp;
use packet::{Buffer, Error, Packet, PacketMut};

const SOURCE: [u8; 4] = [66, 102, 1, 108];
const DESTINATION: [u8; 4] = [192, 168, 0, 79];

fn datagram() -> Vec<u8> {
    ip::v4::Builder::default()
        .id(0x2d87).unwrap()
        .ttl(64).unwrap()
        .source(SOURCE).unwrap()
        .destination(DESTINATION).unwrap()
        .udp().unwrap()
            .source(1337).unwrap()
            .destination(9001).unwrap()
            .build().unwrap()
}

#[test]
fn udp_builder_simple() {
    let packet = datagram();
    assert_eq!(
        packet,
        vec![
            0x45, 0x00, 0x00, 0x1c, 0x2d, 0x87, 0x00, 0x00, 0x40, 0x11, 0x48, 0x81, 0x42, 0x66,
            0x01, 0x6c, 0xc0, 0xa8, 0x00, 0x4f, 0x05, 0x39, 0x23, 0x29, 0x00, 0x08, 0xd2, 0xb2,
        ]
    );

    let ip = ip::v4::Packet::new(&packet[..]).unwrap();
    assert_eq!(ip.id(), 0x2d87);
    assert!(ip.flags().is_empty());
    assert_eq!(ip.length(), 28);
    assert_eq!(ip.ttl(), 64);
    assert_eq!(ip.protocol(), ip::Protocol::Udp);
    assert_eq!(ip.source(), SOURCE);
    assert_eq!(ip.destination(), DESTINATION);
    assert!(ip.is_valid());

    let udp = udp::Packet::new(ip.payload()).unwrap();
    assert_eq!(udp.source(), 1337);
    assert_eq!(udp.destination(), 9001);
    assert_eq!(udp.length(), 8);
    assert!(udp.is_valid(&ip::Packet::from(&ip)));
}

#[test]
fn udp_checksum_mutation() {
    let mut packet = datagram();
    let before = udp::Packet::new(&packet[20..]).unwrap().checksum();

    let mut ip = ip::v4::Packet::new(&mut packet[..]).unwrap();
    let (header, payload) = ip.split_mut();
    let ip = ip::Packet::from(ip::v4::Packet::unchecked(header));
    let mut udp = udp::Packet::new(payload).unwrap();

    udp.checked(&ip).set_destination(9002).unwrap().finish().unwrap();
    assert!(udp.is_valid(&ip));
    assert_eq!(udp.destination(), 9002);

    // Against the checksum from before the change the datagram is wrong.
    let after = udp.checksum();
    assert_ne!(before, after);
    udp.set_checksum(before).unwrap();
    assert!(!udp.is_valid(&ip));
}

#[test]
fn udp_builder_with_payload_in_little_endian() {
    let packet = ip::v4::Builder::default()
        .source(SOURCE).unwrap()
        .destination(DESTINATION).unwrap()
        .udp().unwrap()
            .endianness(Endianness::LITTLE).unwrap()
            .source(1).unwrap()
            .destination(2).unwrap()
            .payload(b"abc").unwrap()
            .build().unwrap();
    assert_eq!(packet.len(), 31);
    assert_eq!(&packet[20..26], &[0, 1, 0, 2, 11, 0]);
    assert_eq!(&packet[28..], b"abc");
    let ip = ip::v4::Packet::new(&packet[..]).unwrap();
    let sum = udp::checksum(&ip::Packet::from(&ip), ip.payload());
    assert_eq!(&packet[26..28], &[(sum % 256) as u8, (sum / 256) as u8]);
}

#[test]
fn tcp_builder_simple() {
    let packet = ip::v4::Builder::default()
        .id(0x2d87).unwrap()
        .ttl(64).unwrap()
        .source(SOURCE).unwrap()
        .destination(DESTINATION).unwrap()
        .tcp().unwrap()
            .source(1337).unwrap()
            .destination(9001).unwrap()
            .flags(tcp::Flags::syn()).unwrap()
            .payload(b"lol").unwrap()
            .build().unwrap();

    let ip = ip::v4::Packet::new(&packet[..]).unwrap();
    assert_eq!(ip.id(), 0x2d87);
    assert!(ip.flags().is_empty());
    assert_eq!(ip.length(), 43);
    assert_eq!(ip.ttl(), 64);
    assert_eq!(ip.protocol(), ip::Protocol::Tcp);
    assert_eq!(ip.source(), SOURCE);
    assert_eq!(ip.destination(), DESTINATION);
    assert!(ip.is_valid());

    let tcp = tcp::Packet::new(ip.payload()).unwrap();
    assert_eq!(tcp.source(), 1337);
    assert_eq!(tcp.destination(), 9001);
    assert_eq!(tcp.flags(), tcp::Flags::syn());
    assert_eq!(tcp.offset(), 5);
    assert_eq!(tcp.payload(), b"lol");
    assert!(tcp.is_valid(&ip::Packet::from(&ip)));
}

#[test]
fn tcp() {
    let packet = ip::v4::Builder::default()
        .id(0x2d87).unwrap()
        .ttl(64).unwrap()
        .source(SOURCE).unwrap()
        .destination(DESTINATION).unwrap()
        .tcp().unwrap()
            .source(1337).unwrap()
            .destination(9001).unwrap()
            .sequence(0x01020304).unwrap()
            .acknowledgment(0x05060708).unwrap()
            .window(0x1000).unwrap()
            .pointer(3).unwrap()
            .flags(tcp::Flags::syn()).unwrap()
            .build().unwrap();

    let packet = ip::v4::Packet::new(packet).unwrap();
    assert_eq!(packet.id(), 0x2d87);
    assert!(packet.flags().is_empty());
    assert_eq!(packet.length(), 40);
    assert_eq!(packet.ttl(), 64);
    assert_eq!(packet.protocol(), ip::Protocol::Tcp);
    assert_eq!(packet.source(), SOURCE);
    assert_eq!(packet.destination(), DESTINATION);
    assert!(packet.is_valid());

    let tcp = tcp::Packet::new(packet.payload()).unwrap();
    assert_eq!(tcp.sequence(), 0x01020304);
    assert_eq!(tcp.acknowledgment(), 0x05060708);
    assert_eq!(tcp.window(), 0x1000);
    assert_eq!(tcp.pointer(), 3);
}

#[test]
fn icmp() {
    let packet = ip::v4::Builder::default()
        .id(0x2d87).unwrap()
        .ttl(64).unwrap()
        .source(SOURCE).unwrap()
        .destination(DESTINATION).unwrap()
        .icmp().unwrap()
            .echo().unwrap().request().unwrap()
                .identifier(42).unwrap()
                .sequence(2).unwrap()
                .payload(b"test").unwrap()
                .build().unwrap();

    let packet = ip::v4::Packet::new(packet).unwrap();

    assert_eq!(packet.id(), 0x2d87);
    assert!(packet.flags().is_empty());
    assert_eq!(packet.length(), 32);
    assert_eq!(packet.ttl(), 64);
    assert_eq!(packet.protocol(), ip::Protocol::Icmp);
    assert_eq!(packet.source(), SOURCE);
    assert_eq!(packet.destination(), DESTINATION);
    assert!(packet.is_valid());

    let message = icmp::Packet::new(packet.payload()).unwrap();
    assert!(message.is_valid());
    let echo = message.echo().unwrap();
    assert!(echo.is_request());
    assert!(!echo.is_reply());
    assert_eq!(echo.identifier(), 42);
    assert_eq!(echo.sequence(), 2);
    assert_eq!(echo.payload(), b"test");
}

#[test]
fn icmp_builder_simple() {
    let packet = icmp::Builder::default()
        .echo().unwrap().request().unwrap()
            .identifier(42).unwrap()
            .sequence(2).unwrap()
            .payload(b"test").unwrap()
            .build().unwrap();

    assert_eq!(packet, vec![8, 0, 0x0f, 0xfa, 0, 42, 0, 2, b't', b'e', b's', b't']);
    let packet = icmp::Packet::new(packet).unwrap();
    assert_eq!(packet.kind(), icmp::Kind::EchoRequest);
    assert_eq!(packet.code(), 0);
    assert_eq!(packet.checksum(), 0x0ffa);
    assert!(packet.is_valid());
}

#[test]
fn timestamp_and_information_builders() {
    let packet = icmp::Builder::default()
        .timestamp().unwrap().reply().unwrap()
            .identifier(1).unwrap()
            .sequence(2).unwrap()
            .originate(3).unwrap()
            .receive(4).unwrap()
            .transmit(5).unwrap()
            .build().unwrap();
    assert_eq!(packet.len(), 20);
    let message = icmp::Packet::new(&packet[..]).unwrap();
    assert_eq!(message.kind(), icmp::Kind::TimestampReply);
    assert!(message.is_valid());
    let timestamp = message.timestamp().unwrap();
    assert!(timestamp.is_reply());
    assert_eq!(timestamp.identifier(), 1);
    assert_eq!(timestamp.sequence(), 2);
    assert_eq!(timestamp.originate(), 3);
    assert_eq!(timestamp.receive(), 4);
    assert_eq!(timestamp.transmit(), 5);
    assert_eq!(message.echo().err(), Some(Error::InvalidPacket));

    let packet = icmp::Builder::default()
        .information().unwrap().request().unwrap()
            .identifier(7).unwrap()
            .sequence(8).unwrap()
            .build().unwrap();
    let information = icmp::information::Packet::new(&packet[..]).unwrap();
    assert!(information.is_request());
    assert_eq!(information.identifier(), 7);
    assert_eq!(information.sequence(), 8);
    assert!(icmp::Packet::new(&packet[..]).unwrap().is_valid());
}

#[test]
fn builders_refuse_what_is_missing_or_given_twice() {
    assert_eq!(icmp::Builder::default().build().err(), Some(Error::InvalidPacket));
    assert_eq!(ip::Builder::default().build().err(), Some(Error::InvalidPacket));
    assert_eq!(
        icmp::Builder::default().echo().unwrap().build().err(),
        Some(Error::InvalidPacket)
    );
    assert_eq!(
        icmp::Builder::default().echo().unwrap().payload(b"a").unwrap().payload(b"b").err(),
        Some(Error::AlreadyDefined)
    );
    // An empty payload is a payload too.
    assert_eq!(
        icmp::Builder::default().echo().unwrap().payload(b"").unwrap().payload(b"").err(),
        Some(Error::AlreadyDefined)
    );
    assert_eq!(
        udp::Builder::default().payload(b"").unwrap().payload(b"b").err(),
        Some(Error::AlreadyDefined)
    );
    assert_eq!(
        tcp::Builder::default().payload(b"a").unwrap().payload(b"").err(),
        Some(Error::AlreadyDefined)
    );
    assert_eq!(
        sll::Builder::default().payload(b"a").unwrap().payload(b"b").err(),
        Some(Error::AlreadyDefined)
    );
    assert_eq!(
        ether::Builder::default().payload(b"a").unwrap().payload(b"b").err(),
        Some(Error::AlreadyDefined)
    );
    assert_eq!(
        ip::v4::Builder::default().payload(b"a").unwrap().payload(b"b").err(),
        Some(Error::AlreadyDefined)
    );
    assert_eq!(
        ip::v4::Builder::default().payload(b"a").unwrap().udp().err(),
        Some(Error::AlreadyDefined)
    );
    assert_eq!(
        ether::Builder::default().payload(b"a").unwrap().ip().err(),
        Some(Error::AlreadyDefined)
    );
    assert_eq!(ip::v4::Builder::default().dscp(64).err(), Some(Error::InvalidValue));
    assert_eq!(ip::v4::Builder::default().ecn(4).err(), Some(Error::InvalidValue));
}

#[test]
fn builder_simple() {
    let packet = ether::Builder::default()
        .destination("00:23:69:63:59:be".parse().unwrap()).unwrap()
        .source("e4:b3:18:26:63:a3".parse().unwrap()).unwrap()
        .ip().unwrap().v4().unwrap()
            .id(0x2d87).unwrap()
            .ttl(64).unwrap()
            .source(SOURCE).unwrap()
            .destination(DESTINATION).unwrap()
            .udp().unwrap()
                .source(1337).unwrap()
                .destination(9001).unwrap()
                .build().unwrap();

    let ether = ether::Packet::new(packet).unwrap();
    assert_eq!(ether.destination(), "00:23:69:63:59:be".parse::<HwAddr>().unwrap());
    assert_eq!(ether.source(), "e4:b3:18:26:63:a3".parse::<HwAddr>().unwrap());
    assert_eq!(ether.protocol(), ether::Protocol::Ipv4);

    let ip = ip::v4::Packet::new(ether.payload()).unwrap();
    assert_eq!(ip.id(), 0x2d87);
    assert!(ip.flags().is_empty());
    assert_eq!(ip.length(), 28);
    assert_eq!(ip.ttl(), 64);
    assert_eq!(ip.protocol(), ip::Protocol::Udp);
    assert_eq!(ip.source(), SOURCE);
    assert_eq!(ip.destination(), DESTINATION);
    assert!(ip.is_valid());

    let udp = udp::Packet::new(ip.payload()).unwrap();
    assert_eq!(udp.source(), 1337);
    assert_eq!(udp.destination(), 9001);
    assert!(udp.is_valid(&ip::Packet::from(&ip)));
}

#[test]
fn sll_builder_simple() {
    let packet = sll::Builder::default()
        .packet_type(PacketType::LinuxSllHost).unwrap()
        .ll_address_type(65534).unwrap()
        .ll_address_length(0).unwrap()
        .unused(0x0).unwrap()
        .protocol(ether::Protocol::Ipv4).unwrap()
        .ip().unwrap().v4().unwrap()
            .id(0x2d87).unwrap()
            .ttl(64).unwrap()
            .source(SOURCE).unwrap()
            .destination(DESTINATION).unwrap()
            .udp().unwrap()
                .source(1337).unwrap()
                .destination(9001).unwrap()
                .build().unwrap();

    let sll = sll::Packet::new(packet).unwrap();
    assert_eq!(sll.packet_type(), PacketType::LinuxSllHost);
    assert_eq!(sll.ll_address_type(), 65534);
    assert_eq!(sll.protocol(), ether::Protocol::Ipv4);

    let ip = ip::v4::Packet::new(sll.payload()).unwrap();
    assert_eq!(ip.id(), 0x2d87);
    assert!(ip.flags().is_empty());
    assert_eq!(ip.length(), 28);
    assert_eq!(ip.ttl(), 64);
    assert_eq!(ip.protocol(), ip::Protocol::Udp);
    assert_eq!(ip.source(), SOURCE);
    assert_eq!(ip.destination(), DESTINATION);
    assert!(ip.is_valid());

    let udp = udp::Packet::new(ip.payload()).unwrap();
    assert_eq!(udp.source(), 1337);
    assert_eq!(udp.destination(), 9001);
    assert!(udp.is_valid(&ip::Packet::from(&ip)));
}

#[test]
fn ether_protocol_follows_the_version() {
    let source = [0u8; 16];
    let mut destination = [0u8; 16];
    destination[15] = 1;
    let packet = ether::Builder::default()
        .protocol(ether::Protocol::Arp).unwrap()
        .ip().unwrap().v6().unwrap()
            .source(source).unwrap()
            .destination(destination).unwrap()
            .build().unwrap();
    assert_eq!(packet.len(), 54);
    let ether = ether::Packet::new(&packet[..]).unwrap();
    assert_eq!(ether.protocol(), ether::Protocol::Ipv6);
    let ip = ip::v6::Packet::new(ether.payload()).unwrap();
    assert_eq!(ip.destination(), destination);
}

#[test]
fn iptest() {
    let mut source = [0u8; 16];
    source[15] = 1;
    let destination = source;
    let packet = ip::v6::Builder::default();
    let pkt = ip::v6::Packet::new(
        packet.source(source).unwrap().destination(destination).unwrap().build().unwrap(),
    )
    .unwrap();

    assert_eq!(pkt.source(), source);
    assert_eq!(pkt.destination(), destination);
    assert!(matches!(ip::Packet::new(pkt.to_owned().as_ref()), Ok(ip::Packet::V6(_))));
}

#[test]
fn arp_builder_round_trip() {
    let sender: HwAddr = "e4:b3:18:26:63:a3".parse().unwrap();
    let target: HwAddr = "00:00:00:00:00:00".parse().unwrap();
    let packet = packet::arp::Builder::default()
        .hardware_type(1).unwrap()
        .protocol_type(0x0800).unwrap()
        .hardware_address_length(6).unwrap()
        .protocol_address_length(4).unwrap()
        .operation(1).unwrap()
        .sender_hardware_address(sender).unwrap()
        .sender_protocol_address([10, 0, 0, 1]).unwrap()
        .target_hardware_address(target).unwrap()
        .target_protocol_address([10, 0, 0, 2]).unwrap()
        .build().unwrap();
    assert_eq!(packet.len(), 28);
    let arp = packet::arp::Packet::new(&packet[..]).unwrap();
    assert_eq!(arp.hardware_type(), 1);
    assert_eq!(arp.protocol_type(), 0x0800);
    assert_eq!(arp.hardware_address_length(), 6);
    assert_eq!(arp.protocol_address_length(), 4);
    assert_eq!(arp.operation(), 1);
    assert_eq!(arp.sender_hardware_address(), sender);
    assert_eq!(arp.sender_protocol_address(), [10, 0, 0, 1]);
    assert_eq!(arp.target_hardware_address(), target);
    assert_eq!(arp.target_protocol_address(), [10, 0, 0, 2]);
}

#[test]
fn build_into_a_slice() {
    let mut storage = [0xffu8; 28];
    {
        let buffer = buffer::Slice::new(&mut storage[..]);
        let built = ip::v4::Builder::with(buffer).unwrap()
            .id(0x2d87).unwrap()
            .ttl(64).unwrap()
            .source(SOURCE).unwrap()
            .destination(DESTINATION).unwrap()
            .udp().unwrap()
                .source(1337).unwrap()
                .destination(9001).unwrap()
                .build().unwrap();
        assert_eq!(built.len(), 28);
    }
    assert_eq!(storage.to_vec(), datagram());

    let mut small = [0u8; 27];
    let buffer = buffer::Slice::new(&mut small[..]);
    assert_eq!(
        ip::v4::Builder::with(buffer).unwrap().udp().err(),
        Some(Error::SmallBuffer)
    );
    let mut tiny = [0u8; 19];
    assert_eq!(
        ip::v4::Builder::with(buffer::Slice::new(&mut tiny[..])).err(),
        Some(Error::SmallBuffer)
    );
    let mut exact = [0u8; 21];
    let buffer = buffer::Slice::new(&mut exact[..]);
    assert_eq!(
        ip::v4::Builder::with(buffer).unwrap().payload(b"ab").err(),
        Some(Error::SmallBuffer)
    );
}

#[test]
fn finalizers_run_last_first_and_stop_at_a_failure() {
    let mut finalization = Finalization::default();
    finalization.add(Fixup::Message { offset: 0, length: 4 });
    let mut more = Finalization::default();
    more.add(Fixup::Ipv4 { offset: 4, length: 20 });
    finalization.extend(more);
    assert_eq!(
        finalization.into_vec(),
        vec![Fixup::Message { offset: 0, length: 4 }, Fixup::Ipv4 { offset: 4, length: 20 }]
    );

    // The IPv4 header is finished first, and the message covers it: had the
    // message been finished first, its checksum would be that of zeros.
    let mut finalization = Finalization::default();
    finalization.add(Fixup::Message { offset: 0, length: 24 });
    finalization.add(Fixup::Ipv4 { offset: 4, length: 20 });
    let mut buffer = [0u8; 24];
    finalization.finalize(&mut buffer[..]).unwrap();
    assert_eq!(buffer[4], 0x45);
    assert_eq!(&buffer[6..8], &[0, 20]);
    assert!(ip::v4::Packet::new(&buffer[4..]).unwrap().is_valid());
    assert!(icmp::Packet::new(&buffer[..]).unwrap().is_valid());
    assert_ne!(&buffer[2..4], &[0xff, 0xff]);

    // The one added last fails: the one before it never runs.
    let mut finalization = Finalization::default();
    finalization.add(Fixup::Message { offset: 0, length: 4 });
    finalization.add(Fixup::Ipv4 { offset: 4, length: 21 });
    let mut buffer = [0u8; 24];
    assert_eq!(finalization.finalize(&mut buffer[..]).err(), Some(Error::SmallBuffer));
    assert_eq!(buffer, [0u8; 24]);

    // A link layer header with nothing of version 4 or 6 behind it.
    let mut finalization = Finalization::default();
    finalization.add(Fixup::EtherProtocol { offset: 0, length: 14 });
    let mut buffer = [0u8; 15];
    assert_eq!(finalization.finalize(&mut buffer[..]).err(), Some(Error::InvalidPacket));
    let mut finalization = Finalization::default();
    finalization.add(Fixup::Udp { ip_offset: 0, ip_length: 4, length: 8, endianness: Endianness::BIG });
    let mut buffer = [0u8; 12];
    assert_eq!(finalization.finalize(&mut buffer[..]).err(), Some(Error::InvalidPacket));
}

#[test]
fn buffer_layers() {
    let mut buffer = buffer::Dynamic::new();
    assert_eq!((buffer.offset(), buffer.length(), buffer.used()), (0, 0, 0));
    buffer.next(4).unwrap();
    assert_eq!(buffer.data().len(), 4);
    buffer.data_mut().copy_from_slice(&[1, 2, 3, 4]);
    buffer.next(2).unwrap();
    assert_eq!((buffer.offset(), buffer.length(), buffer.used()), (4, 2, 6));
    assert_eq!(buffer.data(), &[0, 0]);
    buffer.data_mut()[1] = 9;
    buffer.more(3).unwrap();
    assert_eq!((buffer.offset(), buffer.length(), buffer.used()), (4, 5, 9));
    assert_eq!(buffer.data(), &[0, 9, 0, 0, 0]);
    assert_eq!(buffer.into_inner(), vec![1, 2, 3, 4, 0, 9, 0, 0, 0]);

    let mut storage = [0xaau8; 8];
    {
        let mut buffer = buffer::Slice::new(&mut storage[..]);
        buffer.next(3).unwrap();
        assert_eq!(buffer.data(), &[0, 0, 0]);
        buffer.data_mut()[0] = 7;
        buffer.next(2).unwrap();
        assert_eq!((buffer.offset(), buffer.length(), buffer.used()), (3, 2, 5));
        buffer.more(2).unwrap();
        assert_eq!((buffer.offset(), buffer.length(), buffer.used()), (3, 4, 7));
        assert_eq!(buffer.data(), &[0, 0, 0, 0]);
        assert_eq!(buffer.more(2).err(), Some(Error::SmallBuffer));
        assert_eq!(buffer.next(2).err(), Some(Error::SmallBuffer));
        assert_eq!((buffer.offset(), buffer.length(), buffer.used()), (3, 4, 7));
        buffer.more(1).unwrap();
        buffer.clear();
        assert_eq!((buffer.offset(), buffer.length(), buffer.used()), (0, 0, 0));
        buffer.next(1).unwrap();
        let inner = buffer.into_inner();
        assert_eq!(inner.len(), 8);
    }
    assert_eq!(storage, [0, 0, 0, 0, 0, 0, 0, 0]);
}

#[test]
fn layers_are_written_through_the_helpers() {
    let mut storage = [0xffu8; 12];
    let mut buffer = buffer::Slice::new(&mut storage[..]);
    packet::builder::claim(&mut buffer, 9).unwrap();
    assert_eq!(buffer.data(), &[0; 9]);
    packet::builder::put(&mut buffer, 0, 1);
    packet::builder::put_u16(&mut buffer, 1, 0x0203);
    packet::builder::put_u32(&mut buffer, 3, 0x04050607);
    packet::builder::put_bytes(&mut buffer, 7, &[8, 9]);
    assert_eq!(buffer.data(), &[1, 2, 3, 4, 5, 6, 7, 8, 9]);
    packet::builder::put_u64(&mut buffer, 1, 0x1112131415161718);
    assert_eq!(buffer.data(), &[1, 0x11, 0x12, 0x13, 0x14, 0x15, 0x16, 0x17, 0x18]);
    // What fits is appended, then the buffer is full.
    assert_eq!(packet::builder::append(&mut buffer, &[1, 2, 3, 4]), Err(Error::SmallBuffer));
    assert_eq!(buffer.length(), 12);
    assert_eq!(&buffer.data()[9..], &[1, 2, 3]);
    assert_eq!(packet::builder::claim(&mut buffer, 1), Err(Error::SmallBuffer));
    assert_eq!(packet::builder::append(&mut buffer, &[]), Ok(()));
}
