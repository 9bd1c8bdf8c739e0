use packet::buffer;
use packet::builder::Builder;
use packet::bytes::{to_vec, AsBytes, AsBytesMut};
use packet::endian;
use packet::icmp;
use packet::icmp::code;
use packet::ip;
use packet::ip::v4::flag;
use packet::size;
use packet::sll;
use packet::tcp;
use packet::udp;
use packet::{AsPacket, AsPacketMut, Buffer, Error, Packet, PacketMut, Size};

#[test]
fn numbers_are_read_and_written_most_significant_byte_first() {
    let bytes = [1u8, 2, 3, 4, 5, 6, 7, 8, 9];
    assert_eq!(endian::read_u16(&bytes, 1), 0x0203);
    assert_eq!(endian::read_u32(&bytes, 1), 0x02030405);
    assert_eq!(endian::read_u64(&bytes, 1), 0x0203040506070809);

    let mut bytes = [0u8; 10];
    endian::write_u16(&mut bytes, 0, 0x0102).unwrap();
    endian::write_u32(&mut bytes, 2, 0x03040506).unwrap();
    assert_eq!(bytes, [1, 2, 3, 4, 5, 6, 0, 0, 0, 0]);
    endian::write_u64(&mut bytes, 2, 0x1112131415161718).unwrap();
    assert_eq!(bytes, [1, 2, 0x11, 0x12, 0x13, 0x14, 0x15, 0x16, 0x17, 0x18]);
    endian::write_u16_le(&mut bytes, 0, 0x0102).unwrap();
    assert_eq!(&bytes[..2], &[2, 1]);
}

#[test]
fn a_write_that_does_not_fit_writes_what_fits_and_fails() {
    let mut bytes = [0u8; 4];
    assert_eq!(endian::write_u16(&mut bytes, 3, 0x0102), Err(Error::Io));
    assert_eq!(bytes, [0, 0, 0, 1]);
    assert_eq!(endian::write_u32(&mut bytes, 1, 0x0a0b0c0d), Err(Error::Io));
    assert_eq!(bytes, [0, 0x0a, 0x0b, 0x0c]);
    assert_eq!(endian::write_u64(&mut bytes, 4, 1), Err(Error::Io));
    assert_eq!(endian::write_bytes(&mut bytes, 2, &[7, 8, 9]), Err(Error::Io));
    assert_eq!(bytes, [0, 0x0a, 7, 8]);
    assert_eq!(endian::write_bytes(&mut bytes, 0, &[1, 2]), Ok(()));

    // A setter of a view hands the failure on.
    let mut short = [0u8; 5];
    let mut ip = ip::v4::Packet::unchecked(&mut short[..]);
    assert_eq!(ip.set_id(0x0102).err(), Some(Error::Io));
    assert_eq!(short, [0, 0, 0, 0, 1]);
}

#[test]
fn errors_have_messages() {
    assert_eq!(Error::SmallBuffer.message(), "the buffer is too small");
    assert_eq!(Error::InvalidPacket.message(), "the packet is invalid");
    assert_eq!(Error::InvalidValue.message(), "the vaue is invalid for the field");
    assert_eq!(Error::AlreadyDefined.message(), "the value has already been defined");
    assert_eq!(Error::Io.message(), "failed to write whole buffer");
}

#[test]
fn storage_of_every_kind_is_read_alike() {
    let array = [1u8, 2, 3];
    let vector = vec![1u8, 2, 3];
    let mut other = vec![1u8, 2, 3];
    assert_eq!(array.as_bytes(), &[1, 2, 3]);
    assert_eq!(vector.as_bytes(), &[1, 2, 3]);
    assert_eq!((&vector).as_bytes(), &[1, 2, 3]);
    assert_eq!((&array[..]).as_bytes(), &[1, 2, 3]);
    assert_eq!(to_vec(&array[1..]), vec![2, 3]);
    (&mut other).as_bytes_mut()[0] = 9;
    other.as_bytes_mut()[1] = 8;
    assert_eq!(other, vec![9, 8, 3]);
    let mut buffer = buffer::Dynamic::new();
    buffer.next(2).unwrap();
    buffer.next(1).unwrap();
    assert_eq!(buffer.as_bytes(), &[0]);
}

#[test]
fn sizes_compose() {
    assert_eq!(<ip::v4::Packet<&[u8]> as size::header::Min>::min(), 20);
    assert_eq!(<ip::v4::Packet<&[u8]> as size::header::Max>::max(), 60);
    assert_eq!(<ip::v4::Packet<&[u8]> as size::payload::Min>::min(), 0);
    assert_eq!(<ip::v4::Packet<&[u8]> as size::payload::Max>::max(), 65475);
    assert_eq!(<ip::v4::Packet<&[u8]> as size::Min>::min(), 20);
    assert_eq!(<ip::v4::Packet<&[u8]> as size::Max>::max(), 65535);
    assert_eq!(<udp::Packet<&[u8]> as size::Max>::max(), 65535);
    assert_eq!(<tcp::Packet<&[u8]> as size::Min>::min(), 20);
    assert_eq!(<packet::ether::Packet<&[u8]> as size::Max>::max(), 1500);
    assert_eq!(<packet::arp::Packet<&[u8]> as size::Min>::min(), 28);
    assert_eq!(<sll::Packet<&[u8]> as size::Max>::max(), 1500);
    assert_eq!(<ip::v6::Packet<&[u8]> as size::Min>::min(), 40);

    let mut raw = [0u8; 40];
    raw[0] = 0x46;
    raw[3] = 30;
    let ip = ip::v4::Packet::new(&raw[..]).unwrap();
    let header = size::header::Size::size(&ip);
    let payload = size::payload::Size::size(&ip);
    assert_eq!((header, payload), (24, 6));
    assert_eq!(ip.size(), header + payload);
    assert_eq!(ip.as_ref().len(), 30);
    // A total length of less than the header leaves no payload.
    raw[3] = 10;
    let ip = ip::v4::Packet::new(&raw[..]).unwrap();
    assert_eq!(size::payload::Size::size(&ip), 0);
    assert_eq!(ip.size(), 24);

    let generic = ip::Packet::new(&raw[..]).unwrap();
    assert_eq!(generic.size(), 24);

    let mut raw = [0u8; 30];
    raw[12] = 0x60;
    let tcp = tcp::Packet::new(&raw[..]).unwrap();
    assert_eq!(size::header::Size::size(&tcp), 24);
    assert_eq!(size::payload::Size::size(&tcp), 6);
    assert_eq!(tcp.size(), 30);

    let mut raw = [0u8; 12];
    raw[5] = 10;
    let udp = udp::Packet::new(&raw[..]).unwrap();
    assert_eq!(size::header::Size::size(&udp), 8);
    assert_eq!(size::payload::Size::size(&udp), 2);
    assert_eq!(udp.size(), 10);
    assert_eq!(udp.payload(), &[0, 0]);
    assert_eq!(udp.as_ref().len(), 10);
}

#[test]
fn any_bytes_can_be_asked_for_a_packet() {
    let mut raw = vec![0u8; 20];
    raw[0] = 0x45;
    raw[3] = 20;
    raw[8] = 3;
    let ip: ip::v4::Packet<&[u8]> = raw.as_packet().unwrap();
    assert_eq!(ip.ttl(), 3);
    let generic: ip::Packet<&[u8]> = raw.as_packet().unwrap();
    assert!(matches!(generic, ip::Packet::V4(_)));
    let short: Result<udp::Packet<&[u8]>, Error> = raw[..7].as_packet();
    assert_eq!(short.err(), Some(Error::SmallBuffer));
    {
        let mut ip: ip::v4::Packet<&mut [u8]> = raw.as_packet_mut().unwrap();
        ip.set_ttl(9).unwrap();
    }
    assert_eq!(raw[8], 9);

    let mut builder = udp::Builder::default().source(5).unwrap();
    {
        let datagram: udp::Packet<&[u8]> = builder.as_packet().unwrap();
        assert_eq!(datagram.source(), 5);
    }
    {
        let mut datagram: udp::Packet<&mut [u8]> = builder.as_packet_mut().unwrap();
        datagram.set_destination(6).unwrap();
    }
    {
        let datagram: udp::Packet<&[u8]> = builder.as_packet().unwrap();
        assert_eq!(datagram.as_bytes(), &[0, 5, 0, 6, 0, 0, 0, 0]);
    }
    // A datagram with no IP header before it cannot be finished.
    assert_eq!(builder.build().err(), Some(Error::InvalidPacket));
}

#[test]
fn kinds_and_codes_stand_for_their_numbers() {
    for number in 0..=255u8 {
        assert_eq!(u8::from(icmp::Kind::from(number)), number);
        assert_eq!(u8::from(ip::Protocol::from(number)), number);
        assert_eq!(u8::from(code::DestinationUnreachable::from(number)), number);
        assert_eq!(u8::from(code::RedirectMessage::from(number)), number);
        assert_eq!(u8::from(code::ParameterProblem::from(number)), number);
        assert_eq!(u8::from(tcp::option::Number::from(number)), number);
        assert_eq!(u8::from(ip::v4::option::Number::from(number)), number);
    }
    for number in [0u16, 0x0800, 0x0806, 0x86dd, 0x8100, 0x1234, 0xffff] {
        assert_eq!(u16::from(packet::ether::Protocol::from(number)), number);
    }
    assert_eq!(icmp::Kind::from(8), icmp::Kind::EchoRequest);
    assert_eq!(icmp::Kind::from(1), icmp::Kind::Unknown(1));
    assert_eq!(ip::Protocol::from(6), ip::Protocol::Tcp);
    assert_eq!(ip::Protocol::from(17), ip::Protocol::Udp);
    assert_eq!(ip::Protocol::from(1), ip::Protocol::Icmp);
    assert_eq!(ip::Protocol::Unknown(200).into_number(), 200);
    assert_eq!(packet::ether::Protocol::from(0x0800), packet::ether::Protocol::Ipv4);
    assert_eq!(packet::ether::Protocol::from(0x86dd), packet::ether::Protocol::Ipv6);
    assert_eq!(code::DestinationUnreachable::from(3), code::DestinationUnreachable::DestinationPortUnreachable);
    assert_eq!(code::RedirectMessage::from(1), code::RedirectMessage::RedirectDatagramForHost);
    assert_eq!(code::ParameterProblem::from(2), code::ParameterProblem::BadLength);
    assert_eq!(ip::v4::option::Class::from(2), ip::v4::option::Class::Debugging);
    assert_eq!(ip::v4::option::Class::from(3), ip::v4::option::Class::Reserved(3));
    assert_eq!(u8::from(ip::v4::option::Class::Reserved(1)), 1);
    for number in 0..=4u16 {
        assert_eq!(u16::from(sll::PacketType::from(number)), number);
    }
    assert_eq!(sll::PacketType::from(2), sll::PacketType::LinuxSllMulticast);
}

#[test]
fn flags_are_sets_of_bits() {
    let none = ip::v4::Flags::empty();
    assert!(none.is_empty());
    assert_eq!(ip::v4::Flags::all().bits(), 0b110);
    let both = ip::v4::Flags::dont_fragment().union(ip::v4::Flags::more_fragments());
    assert_eq!(both, ip::v4::Flags::all());
    assert!(both.contains(ip::v4::Flags::dont_fragment()));
    assert!(!ip::v4::Flags::dont_fragment().contains(both));
    assert_eq!(ip::v4::Flags::from_bits(flag::DONT_FRAGMENT), Some(ip::v4::Flags::dont_fragment()));
    assert_eq!(ip::v4::Flags::from_bits(1), None);
    assert_eq!(ip::v4::Flags::from_bits_truncate(0b111).bits(), 0b110);

    assert_eq!(tcp::Flags::syn().bits(), tcp::flag::SYN);
    assert_eq!(tcp::Flags::from_bits(0x200), None);
    assert_eq!(tcp::Flags::from_bits(0x012), Some(tcp::Flags::syn().union(tcp::Flags::ack())));
    assert_eq!(tcp::Flags::all().bits(), 0x1ff);
    let names = [
        tcp::Flags::fin(), tcp::Flags::syn(), tcp::Flags::rst(), tcp::Flags::psh(), tcp::Flags::ack(),
        tcp::Flags::urg(), tcp::Flags::ece(), tcp::Flags::cwr(), tcp::Flags::ns(),
    ];
    for (bit, flag) in names.iter().enumerate() {
        assert_eq!(flag.bits(), 1 << bit);
    }

    // Flags and fragment offset share a word and leave each other alone.
    let mut raw = [0u8; 20];
    raw[0] = 0x45;
    let mut ip = ip::v4::Packet::no_payload(&mut raw[..]).unwrap();
    ip.set_offset(0x1abc).unwrap();
    ip.set_flags(ip::v4::Flags::more_fragments()).unwrap();
    assert_eq!(ip.offset(), 0x1abc);
    assert_eq!(ip.flags(), ip::v4::Flags::more_fragments());
    ip.set_offset(1).unwrap();
    assert_eq!(ip.flags(), ip::v4::Flags::more_fragments());
    assert_eq!(&raw[6..8], &[0x80, 0x01]);

    // The flags of a segment take the whole word: the data offset goes.
    let mut raw = [0u8; 20];
    raw[12] = 0x50;
    let mut tcp = tcp::Packet::new(&mut raw[..]).unwrap();
    tcp.set_flags(tcp::Flags::ns().union(tcp::Flags::fin())).unwrap();
    assert_eq!(&raw[12..14], &[0x01, 0x01]);
}

#[test]
fn messages_that_quote_a_datagram() {
    let mut raw = [0u8; 36];
    raw[0] = 12;
    raw[4] = 9;
    raw[8] = 0x45;
    raw[11] = 28;
    raw[16] = 1;
    let message = icmp::Packet::new(&raw[..]).unwrap();
    assert_eq!(message.kind(), icmp::Kind::ParameterProblem);
    let problem = message.parameter_problem().unwrap();
    assert_eq!(problem.pointer(), 9);
    assert_eq!(problem.packet().unwrap().ttl(), 1);
    assert_eq!(size::payload::Size::size(&problem), 20);
    assert_eq!(problem.size(), 28);
    assert_eq!(Packet::header(&problem).len(), 8);
    assert_eq!(problem.payload().len(), 28);
    assert_eq!(message.redirect_message().err(), Some(Error::InvalidPacket));
    assert_eq!(message.previous().err(), Some(Error::InvalidPacket));

    raw[0] = 5;
    raw[4..8].copy_from_slice(&[10, 0, 0, 254]);
    let message = icmp::Packet::new(&raw[..]).unwrap();
    let redirect = message.redirect_message().unwrap();
    assert_eq!(redirect.gateway(), [10, 0, 0, 254]);
    assert_eq!(redirect.packet().unwrap().length(), 28);

    raw[0] = 3;
    raw[8] = 0x15;
    let message = icmp::Packet::new(&raw[..]).unwrap();
    let previous = message.previous().unwrap();
    // What is quoted does not parse: the payload is all that is left.
    assert_eq!(previous.packet().err(), Some(Error::InvalidPacket));
    assert_eq!(size::payload::Size::size(&previous), 28);
    assert_eq!(icmp::previous::Packet::new(&raw[..7]).err(), Some(Error::SmallBuffer));
}

#[test]
fn scopes_of_control_messages() {
    let mut raw = [0u8; 8];
    raw[0] = 15;
    let mut information = icmp::information::Packet::new(&mut raw[..]).unwrap();
    assert!(information.is_request());
    information.checked()
        .set_identifier(0x0102).unwrap()
        .set_sequence(0x0304).unwrap()
        .finish().unwrap();
    assert_eq!(information.identifier(), 0x0102);
    assert_eq!(information.sequence(), 0x0304);
    assert!(icmp::Packet::new(&raw[..]).unwrap().is_valid());
    assert_eq!(&raw[2..4], &[0xec, 0xf9]);

    let mut raw = [0u8; 20];
    raw[0] = 13;
    let mut timestamp = icmp::timestamp::Packet::new(&mut raw[..]).unwrap();
    timestamp.checked()
        .set_originate(1).unwrap()
        .set_receive(2).unwrap()
        .set_transmit(3).unwrap()
        .make_reply().unwrap()
        .finish().unwrap();
    assert_eq!(timestamp.transmit(), 3);
    assert!(icmp::Packet::new(&raw[..]).unwrap().is_valid());
    assert_eq!(raw[0], 0);
    let mut view = icmp::timestamp::Packet::unchecked(&mut raw[..]);
    let (header, payload) = view.split_mut();
    assert_eq!((header.len(), payload.len()), (8, 12));
}

#[test]
fn cooked_capture_frames_are_written() {
    let mut raw = [0u8; 16];
    let mut frame = sll::Packet::new(&mut raw[..]).unwrap();
    frame.set_packet_type(sll::PacketType::LinuxSllOutgoing).unwrap();
    frame.set_ll_address_type(1).unwrap();
    frame.set_ll_address_length(6).unwrap();
    frame.set_unused(0x0011223344550000).unwrap();
    frame.set_protocol(packet::ether::Protocol::Ipv6).unwrap();
    assert_eq!(frame.packet_type(), sll::PacketType::LinuxSllOutgoing);
    assert_eq!(frame.unused(), 0x0011223344550000);
    assert_eq!(raw, [0, 4, 0, 1, 0, 6, 0, 0x11, 0x22, 0x33, 0x44, 0x55, 0, 0, 0x86, 0xdd]);
    let frame = sll::Builder::default().unused(0x0102030405060708).unwrap().build().unwrap();
    assert_eq!(&frame[6..14], &[1, 2, 3, 4, 5, 6, 7, 8]);
}
