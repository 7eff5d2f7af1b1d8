use proto::packet::error::{Error, ErrorKind};
use proto::packet::ip_protocol::IpProtocol;
use proto::packet::ipv4::checksum;
use proto::packet::ipv4::field::{OPTION, PAYLOAD};
use proto::packet::ipv4::{Flag, IpAddress, Packet, Version};

const PACKET_BYTES: [u8; 28] = [
    0x46, 0x00, 0x00, 0x1c, 0x00, 0x00, 0x40, 0x00, 0x40, 0x01, 0xd2, 0x79, 0x11, 0x12, 0x13, 0x14,
    0x21, 0x22, 0x23, 0x24, 0xff, 0xff, 0xff, 0xff, 0xaa, 0x00, 0x00, 0xff,
];

const PACKET_HEADER: [u8; 20] = [
    0x45, 0x00, 0x00, 0x34, 0x51, 0x25, 0x40, 0x00, 0xff, 0x06, 0x08, 0x21, 0x0a, 0x00, 0x0a, 0xbb,
    0x0a, 0x00, 0x03, 0xc3,
];

#[test]
fn test_is_broadcast() {
    assert_eq!(IpAddress::new(255, 255, 255, 255).is_broadcast(), true)
}

#[test]
fn test_is_loopback() {
    assert_eq!(IpAddress::new(127, 0, 0, 1).is_loopback(), true);
}

#[test]
fn test_packet() {
    let p = Packet::new(PACKET_BYTES.to_vec()).unwrap();
    assert_eq!(p.version(), Version::Ipv4);
    assert_eq!(p.header_length(), 6);
    assert_eq!(p.tos(), 0);
    assert_eq!(p.length(), 0x1c);
    assert_eq!(p.identification(), 0);
    assert_eq!(p.flag(), Flag::DontFragment);
    assert_eq!(p.fragment(), 0);
    assert_eq!(p.ttl(), 0x40);
    assert_eq!(p.protocol(), IpProtocol::ICMP);
    assert_eq!(p.checksum(), 0xd279);
    assert_eq!(p.source_addr(), IpAddress::new(0x11, 0x12, 0x13, 0x14));
    assert_eq!(p.destination_addr(), IpAddress::new(0x21, 0x22, 0x23, 0x24));
    assert_eq!(p.option(), vec![0xff, 0xff, 0xff, 0xff]);
    assert_eq!(p.payload(), vec![0xaa, 0x00, 0x00, 0xff]);
}

#[test]
fn test_build_ip_packet() {
    let mut p = Packet::new(vec![0u8; 28]).unwrap();
    p.set_version(Version::Ipv4);
    p.set_header_length(24);
    p.set_tos(0);
    p.set_length(0x1c);
    p.set_identification(0);
    p.set_flag(Flag::DontFragment);
    p.set_fragment_offset(0);
    p.set_ttl(0x40);
    p.set_protocol(IpProtocol::ICMP);
    p.set_checksum(0xd279);
    p.set_source_addr(IpAddress::new(0x11, 0x12, 0x13, 0x14));
    p.set_destination_addr(IpAddress::new(0x21, 0x22, 0x23, 0x24));
    p.set_option(&[0xff; 4]);
    p.set_payload(&[0xaa, 0x00, 0x00, 0xff]);

    assert_eq!(p.version(), Version::Ipv4);
    assert_eq!(p.header_length(), 6);
    assert_eq!(p.tos(), 0);
    assert_eq!(p.length(), 0x1c);
    assert_eq!(p.identification(), 0);
    assert_eq!(p.flag(), Flag::DontFragment);
    assert_eq!(p.fragment(), 0);
    assert_eq!(p.ttl(), 0x40);
    assert_eq!(p.protocol(), IpProtocol::ICMP);
    assert_eq!(p.checksum(), 0xd279);
    assert_eq!(p.source_addr(), IpAddress::new(0x11, 0x12, 0x13, 0x14));
    assert_eq!(p.destination_addr(), IpAddress::new(0x21, 0x22, 0x23, 0x24));
    assert_eq!(p.option(), vec![0xff, 0xff, 0xff, 0xff]);
    assert_eq!(p.payload(), vec![0xaa, 0x00, 0x00, 0xff]);
}

#[test]
fn test_ip_header() {
    let header: [u8; 24] = [
        0x46, 0x00, 0x00, 0x1c, 0x00, 0x00, 0x40, 0x00, 0x40, 0x01, 0xd2, 0x79, 0x11, 0x12, 0x13,
        0x14, 0x21, 0x22, 0x23, 0x24, 0xff, 0xff, 0xff, 0xff,
    ];
    let p = Packet::new(PACKET_BYTES.to_vec()).unwrap();
    assert_eq!(p.header(), &header);
}

#[test]
fn test_build_checksum() {
    let sum = checksum::calc(&PACKET_HEADER);
    assert_eq!(sum, 0x0821);
}

#[test]
fn checksum_of_header_with_zeroed_field() {
    let mut header = PACKET_HEADER;
    header[10] = 0x00;
    header[11] = 0x00;
    assert_eq!(checksum::calc(&header), 0x0821);
    assert!(checksum::verify(&header, 0x0821));
    assert!(!checksum::verify(&header, 0x0000));
}

#[test]
fn header_that_stores_its_checksum_verifies() {
    let p = Packet::new(PACKET_HEADER.to_vec()).unwrap();
    assert_eq!(p.header_length(), 5);
    assert_eq!(p.checksum(), 0x0821);
    assert_eq!(p.verify_checksum(), true);
}

#[test]
fn header_with_another_checksum_does_not_verify() {
    let mut p = Packet::new(PACKET_HEADER.to_vec()).unwrap();
    p.set_checksum(0x0822);
    assert_eq!(p.verify_checksum(), false);
    p.set_checksum(checksum::calc(p.header()));
    assert_eq!(p.checksum(), 0x0821);
    assert_eq!(p.verify_checksum(), true);
}

#[test]
fn checksum_covers_the_options_and_not_the_payload() {
    let mut p = Packet::new(PACKET_BYTES.to_vec()).unwrap();
    assert_eq!(checksum::calc(p.header()), 0xd175);
    assert_eq!(p.verify_checksum(), false);
    p.set_checksum(0xd175);
    assert_eq!(p.verify_checksum(), true);
    p.set_payload(&[1, 2, 3, 4]);
    assert_eq!(p.verify_checksum(), true);
    p.set_option(&[0, 0, 0, 1]);
    assert_eq!(p.verify_checksum(), false);
    assert_eq!(checksum::calc(p.header()), 0xd174);
}

#[test]
fn built_packet_has_the_expected_bytes() {
    let mut p = Packet::new(vec![0u8; 28]).unwrap();
    p.set_version(Version::Ipv4);
    p.set_header_length(24);
    p.set_tos(0);
    p.set_length(0x1c);
    p.set_identification(0);
    p.set_flag(Flag::DontFragment);
    p.set_fragment_offset(0);
    p.set_ttl(0x40);
    p.set_protocol(IpProtocol::ICMP);
    p.set_checksum(0xd279);
    p.set_source_addr(IpAddress::new(0x11, 0x12, 0x13, 0x14));
    p.set_destination_addr(IpAddress::new(0x21, 0x22, 0x23, 0x24));
    p.set_option(&[0xff; 4]);
    p.set_payload(&[0xaa, 0x00, 0x00, 0xff]);
    assert_eq!(p.as_bytes(), PACKET_BYTES.as_ref());
    assert!(p.is_valid().is_ok());
    let again = Packet::new(p.into_buffer()).unwrap();
    assert_eq!(again.as_bytes(), PACKET_BYTES.as_ref());
    assert_eq!(again.flag(), Flag::DontFragment);
    assert_eq!(again.option(), vec![0xff; 4]);
}

#[test]
fn buffer_shorter_than_the_fixed_fields_is_rejected() {
    assert_eq!(Packet::new(vec![0x45; 19]), Err(Error::from(ErrorKind::InvalidFormat)));
    assert_eq!(Packet::new(Vec::new()).unwrap_err().kind(), ErrorKind::InvalidFormat);
    assert!(Packet::new(vec![0x45; 20]).is_ok());
}

#[test]
fn inconsistent_header_is_reported_invalid() {
    let invalid = Err(Error::from(ErrorKind::InvalidFormat));
    let mut p = Packet::new(PACKET_BYTES.to_vec()).unwrap();
    assert!(p.is_valid().is_ok());
    p.set_header_length(16);
    assert_eq!(p.header_length(), 4);
    assert_eq!(p.is_valid(), invalid);
    p.set_header_length(24);
    p.set_length(23);
    assert_eq!(p.is_valid(), invalid);
    p.set_length(29);
    assert_eq!(p.is_valid(), invalid);
    p.set_length(24);
    assert!(p.is_valid().is_ok());
    assert_eq!(p.payload(), Vec::<u8>::new());
    p.set_length(28);
    p.set_header_length(32);
    assert_eq!(p.is_valid(), invalid);
    assert_eq!(Packet::new(vec![0u8; 28]).unwrap().is_valid(), invalid);
}

#[test]
fn header_without_options() {
    let mut bytes = PACKET_HEADER.to_vec();
    bytes.extend_from_slice(&[1, 2, 3]);
    let mut p = Packet::new(bytes).unwrap();
    assert_eq!(p.header(), PACKET_HEADER.as_ref());
    p.set_length(23);
    assert_eq!(p.option(), Vec::<u8>::new());
    assert_eq!(p.header().len(), 20);
    assert_eq!(p.payload(), vec![1, 2, 3]);
    p.set_option(&[]);
    p.set_length(22);
    assert_eq!(p.payload(), vec![1, 2]);
    p.set_payload(&[7, 8]);
    assert_eq!(&p.as_bytes()[20..], &[7, 8, 3]);
}

#[test]
fn version_and_header_length_share_a_byte() {
    let mut p = Packet::new(vec![0u8; 20]).unwrap();
    p.set_header_length(20);
    assert_eq!(p.as_bytes()[0], 0x05);
    p.set_version(Version::Ipv4);
    assert_eq!(p.as_bytes()[0], 0x45);
    assert_eq!(p.header_length(), 5);
    p.set_header_length(60);
    assert_eq!(p.as_bytes()[0], 0x4f);
    assert_eq!(p.version(), Version::Ipv4);
    assert_eq!(p.header_length(), 15);
    p.set_header_length(63);
    assert_eq!(p.header_length(), 15);
    p.set_header_length(23);
    assert_eq!(p.header_length(), 5);
    p.set_version(Version::Unknown);
    assert_eq!(p.as_bytes()[0], 0x05);
    assert_eq!(p.version(), Version::Unknown);
    p.set_header_length(0);
    assert_eq!(p.as_bytes()[0], 0x00);
}

#[test]
fn version_is_the_upper_nibble() {
    let mut bytes = vec![0u8; 20];
    bytes[0] = 0x65;
    let p = Packet::new(bytes).unwrap();
    assert_eq!(p.version(), Version::Unknown);
    assert_eq!(p.header_length(), 5);
}

#[test]
fn flags_and_fragment_offset_share_a_field() {
    let mut p = Packet::new(vec![0u8; 20]).unwrap();
    p.set_fragment_offset(0x1238);
    assert_eq!(p.fragment(), 0x0247);
    assert_eq!(&p.as_bytes()[6..8], &[0x02, 0x47]);
    assert_eq!(p.flag(), Flag::NoMore);
    p.set_flag(Flag::MoreFragment);
    assert_eq!(&p.as_bytes()[6..8], &[0x82, 0x47]);
    assert_eq!(p.flag(), Flag::MoreFragment);
    assert_eq!(p.fragment(), 0x0247);
    p.set_flag(Flag::DontFragment);
    assert_eq!(&p.as_bytes()[6..8], &[0x42, 0x47]);
    assert_eq!(p.fragment(), 0x0247);
    p.set_flag(Flag::Unknown);
    assert_eq!(&p.as_bytes()[6..8], &[0x22, 0x47]);
    assert_eq!(p.flag(), Flag::Unknown);
    p.set_fragment_offset(0xffff);
    assert_eq!(&p.as_bytes()[6..8], &[0x3f, 0xff]);
    assert_eq!(p.fragment(), 0x1fff);
    assert_eq!(p.flag(), Flag::Unknown);
    p.set_flag(Flag::NoMore);
    assert_eq!(&p.as_bytes()[6..8], &[0x1f, 0xff]);
    assert_eq!(p.fragment(), 0x1fff);
    p.set_fragment_offset(7);
    assert_eq!(p.fragment(), 0);
    assert_eq!(&p.as_bytes()[6..8], &[0x00, 0x00]);
}

#[test]
fn flag_is_the_upper_three_bits() {
    let mut bytes = vec![0u8; 20];
    bytes[6] = 0xe0;
    bytes[7] = 0x01;
    let p = Packet::new(bytes.clone()).unwrap();
    assert_eq!(p.flag(), Flag::Unknown);
    assert_eq!(p.fragment(), 0x0001);
    bytes[6] = 0x9f;
    bytes[7] = 0xff;
    let q = Packet::new(bytes).unwrap();
    assert_eq!(q.flag(), Flag::MoreFragment);
    assert_eq!(q.fragment(), 0x1fff);
}

#[test]
fn sixteen_bit_fields_are_big_endian() {
    let mut p = Packet::new(vec![0u8; 20]).unwrap();
    p.set_length(0x1234);
    p.set_identification(0xabcd);
    p.set_checksum(0x0821);
    assert_eq!(&p.as_bytes()[2..6], &[0x12, 0x34, 0xab, 0xcd]);
    assert_eq!(&p.as_bytes()[10..12], &[0x08, 0x21]);
    assert_eq!(p.length(), 0x1234);
    assert_eq!(p.identification(), 0xabcd);
    assert_eq!(p.checksum(), 0x0821);
    p.set_length(0xffff);
    assert_eq!(p.length(), 65535);
}

#[test]
fn setters_touch_only_their_field() {
    let mut p = Packet::new(PACKET_BYTES.to_vec()).unwrap();
    p.set_tos(0x10);
    p.set_ttl(0x01);
    p.set_protocol(IpProtocol::UDP);
    p.set_source_addr(IpAddress::new(10, 0, 0, 1));
    p.set_destination_addr(IpAddress::BROADCAST());
    let mut expected = PACKET_BYTES.to_vec();
    expected[1] = 0x10;
    expected[8] = 0x01;
    expected[9] = 17;
    expected[12..16].copy_from_slice(&[10, 0, 0, 1]);
    expected[16..20].copy_from_slice(&[255, 255, 255, 255]);
    assert_eq!(p.as_bytes(), expected.as_slice());
    assert_eq!(p.tos(), 0x10);
    assert_eq!(p.ttl(), 0x01);
    assert_eq!(p.protocol(), IpProtocol::UDP);
    assert_eq!(p.source_addr(), IpAddress::new(10, 0, 0, 1));
    assert!(p.destination_addr().is_broadcast());
    assert_eq!(p.len(), 28);
}

#[test]
fn option_and_payload_ranges() {
    assert_eq!(OPTION(5), 20..20);
    assert_eq!(OPTION(6), 20..24);
    assert_eq!(OPTION(15), 20..60);
    assert_eq!(OPTION(0), 20..0);
    assert_eq!(PAYLOAD(5, 40), 20..40);
    assert_eq!(PAYLOAD(6, 28), 24..28);
    assert_eq!(PAYLOAD(15, 60), 60..60);
}

#[test]
fn address_basics() {
    assert_eq!(IpAddress::new(1, 2, 3, 4).0, [1, 2, 3, 4]);
    assert_eq!(IpAddress::from_bytes(&[1, 2, 3, 4]), IpAddress::new(1, 2, 3, 4));
    assert_eq!(IpAddress::new(1, 2, 3, 4).as_bytes(), &[1, 2, 3, 4]);
    assert_eq!(IpAddress::BROADCAST(), IpAddress::new(255, 255, 255, 255));
    assert!(IpAddress::BROADCAST().is_broadcast());
    assert!(!IpAddress::new(255, 255, 255, 254).is_broadcast());
    assert!(!IpAddress::BROADCAST().is_loopback());
    assert!(IpAddress::new(127, 255, 255, 255).is_loopback());
    assert!(!IpAddress::new(128, 0, 0, 1).is_loopback());
    assert!(!IpAddress::new(1, 127, 127, 127).is_loopback());
    assert_ne!(IpAddress::new(1, 2, 3, 4), IpAddress::new(1, 2, 3, 5));
    assert!(IpAddress::new(1, 2, 3, 4) < IpAddress::new(1, 2, 4, 0));
    assert!(IpAddress::new(9, 0, 0, 0) < IpAddress::new(10, 0, 0, 0));
}

#[test]
fn version_flag_and_protocol_conversions() {
    assert_eq!(Version::from(4), Version::Ipv4);
    assert_eq!(Version::from(6), Version::Unknown);
    assert_eq!(Version::from(0), Version::Unknown);
    assert_eq!(u8::from(Version::Ipv4), 4);
    assert_eq!(u8::from(Version::Unknown), 0);
    assert_eq!(Flag::from(0), Flag::NoMore);
    assert_eq!(Flag::from(2), Flag::DontFragment);
    assert_eq!(Flag::from(4), Flag::MoreFragment);
    assert_eq!(Flag::from(1), Flag::Unknown);
    assert_eq!(Flag::from(3), Flag::Unknown);
    assert_eq!(Flag::from(7), Flag::Unknown);
    assert_eq!(u16::from(Flag::NoMore), 0);
    assert_eq!(u16::from(Flag::DontFragment), 2);
    assert_eq!(u16::from(Flag::MoreFragment), 4);
    assert_eq!(u16::from(Flag::Unknown), 1);
    assert_eq!(IpProtocol::from(1), IpProtocol::ICMP);
    assert_eq!(IpProtocol::from(6), IpProtocol::TCP);
    assert_eq!(IpProtocol::from(17), IpProtocol::UDP);
    assert_eq!(IpProtocol::from(0), IpProtocol::Unknown);
    assert_eq!(IpProtocol::from(2), IpProtocol::Unknown);
    assert_eq!(u8::from(IpProtocol::ICMP), 1);
    assert_eq!(u8::from(IpProtocol::TCP), 6);
    assert_eq!(u8::from(IpProtocol::UDP), 17);
    assert_eq!(u8::from(IpProtocol::Unknown), 0);
}
