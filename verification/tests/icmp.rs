use proto::packet::error::{Error, ErrorKind};
use proto::packet::icmp::checksum;
use proto::packet::icmp::{DstUnreachableCode, Packet, Type};

const ECHO_PACKET_BYTES: [u8; 12] =
    [0x08, 0x00, 0x8e, 0xfe, 0x12, 0x34, 0xab, 0xcd, 0xaa, 0x00, 0x00, 0xff];

const ECHO_DATA_BYTES: [u8; 4] = [0xaa, 0x00, 0x00, 0xff];

const UNREACHABLE_BYTES: [u8; 12] =
    [0x03, 0x04, 0x00, 0x00, 0x00, 0x00, 0x05, 0xdc, 0x45, 0x00, 0x00, 0x54];

#[test]
fn test_icmp_packet() {
    let p = Packet::new(ECHO_PACKET_BYTES.to_vec()).unwrap();
    assert_eq!(p.typ(), Type::EchoRequest);
    assert_eq!(p.code(), 0);
    assert_eq!(p.checksum(), 0x8efe);
    assert_eq!(p.echo_ident().unwrap(), 0x1234);
    assert_eq!(p.echo_seqno().unwrap(), 0xabcd);
    assert_eq!(p.echo_data().unwrap(), &[0xaa, 0x00, 0x00, 0xff]);
    assert_eq!(p.header(), &[0x08, 0x00, 0x8e, 0xfe])
}

#[test]
fn test_icmp_build_packet() {
    let mut p = Packet::new(vec![0u8; 12]).unwrap();
    p.set_type(Type::EchoRequest);
    p.set_code(0);
    p.set_echo_ident(0x1234);
    p.set_echo_seqno(0xabcd);
    p.set_echo_data(&ECHO_DATA_BYTES);
    p.set_checksum(checksum::calc(p.as_bytes()));
    assert_eq!(p.typ(), Type::EchoRequest);
    assert_eq!(p.code(), 0);
    assert_eq!(p.checksum(), 0x8efe);
    assert_eq!(p.echo_ident().unwrap(), 0x1234);
    assert_eq!(p.echo_seqno().unwrap(), 0xabcd);
    assert_eq!(p.echo_data().unwrap(), &[0xaa, 0x00, 0x00, 0xff]);
    assert_eq!(p.header(), &[0x08, 0x00, 0x8e, 0xfe])
}

#[test]
fn test_calc_icmp_checksum() {
    let p = Packet::new(ECHO_PACKET_BYTES.to_vec()).unwrap();
    let sum = checksum::calc(p.as_bytes());
    assert_eq!(sum, 0x8efe);
}

#[test]
fn built_echo_request_has_the_expected_bytes() {
    let mut p = Packet::new(vec![0u8; 12]).unwrap();
    p.set_type(Type::EchoRequest);
    p.set_code(0);
    p.set_echo_ident(0x1234);
    p.set_echo_seqno(0xabcd);
    p.set_echo_data(&ECHO_DATA_BYTES);
    p.set_checksum(checksum::calc(p.as_bytes()));
    assert_eq!(p.as_bytes(), ECHO_PACKET_BYTES.as_ref());
    assert!(checksum::verify(p.as_bytes(), p.checksum()));
    let again = Packet::new(p.into_buffer()).unwrap();
    assert_eq!(again.typ(), Type::EchoRequest);
    assert_eq!(again.echo_ident(), Some(0x1234));
    assert_eq!(again.echo_seqno(), Some(0xabcd));
    assert_eq!(again.data(), &[0x12, 0x34, 0xab, 0xcd, 0xaa, 0x00, 0x00, 0xff]);
}

#[test]
fn checksum_does_not_depend_on_the_stored_value() {
    let mut p = Packet::new(ECHO_PACKET_BYTES.to_vec()).unwrap();
    p.set_checksum(0x0000);
    assert_eq!(checksum::calc(p.as_bytes()), 0x8efe);
    p.set_checksum(0xffff);
    assert_eq!(checksum::calc(p.as_bytes()), 0x8efe);
    assert!(!checksum::verify(p.as_bytes(), p.checksum()));
    assert!(checksum::verify(p.as_bytes(), 0x8efe));
}

#[test]
fn set_checksum_is_written_big_endian() {
    let mut p = Packet::new(vec![0u8; 4]).unwrap();
    p.set_checksum(0x8efe);
    assert_eq!(p.as_bytes(), &[0x00, 0x00, 0x8e, 0xfe]);
    assert_eq!(p.checksum(), 0x8efe);
    assert_eq!(p.typ(), Type::EchoReply);
    assert_eq!(p.code(), 0);
}

#[test]
fn echo_fields_are_absent_from_other_types() {
    let p = Packet::new(UNREACHABLE_BYTES.to_vec()).unwrap();
    assert_eq!(p.typ(), Type::DstUnreachable);
    assert_eq!(p.echo_ident(), None);
    assert_eq!(p.echo_seqno(), None);
    assert_eq!(p.echo_data(), None);
    let mut q = Packet::new(ECHO_PACKET_BYTES.to_vec()).unwrap();
    q.set_type(Type::TimeExceeded);
    assert_eq!(q.echo_ident(), None);
    assert_eq!(q.echo_seqno(), None);
    assert_eq!(q.echo_data(), None);
    assert_eq!(q.unreachable_code(), None);
    assert_eq!(q.unreachable_nexthop(), None);
    assert_eq!(q.unreachable_data(), None);
    assert_eq!(q.data(), &[0x12, 0x34, 0xab, 0xcd, 0xaa, 0x00, 0x00, 0xff]);
}

#[test]
fn echo_reply_carries_echo_fields() {
    let mut p = Packet::new(ECHO_PACKET_BYTES.to_vec()).unwrap();
    p.set_type(Type::EchoReply);
    assert_eq!(p.as_bytes()[0], 0);
    assert_eq!(p.echo_ident(), Some(0x1234));
    assert_eq!(p.echo_seqno(), Some(0xabcd));
    assert_eq!(p.echo_data().unwrap(), &ECHO_DATA_BYTES);
    assert_eq!(p.unreachable_code(), None);
}

#[test]
fn unreachable_fields_are_present_only_for_that_type() {
    let p = Packet::new(UNREACHABLE_BYTES.to_vec()).unwrap();
    assert_eq!(p.unreachable_code(), Some(DstUnreachableCode::FragmentRequired));
    assert_eq!(p.unreachable_nexthop(), Some(1500));
    assert_eq!(p.unreachable_data().unwrap(), &[0x45, 0x00, 0x00, 0x54]);
    let q = Packet::new(ECHO_PACKET_BYTES.to_vec()).unwrap();
    assert_eq!(q.unreachable_code(), None);
    assert_eq!(q.unreachable_nexthop(), None);
    assert_eq!(q.unreachable_data(), None);
}

#[test]
fn header_only_message_has_empty_data() {
    let mut p = Packet::new(vec![0x0b, 0x01, 0x00, 0x00]).unwrap();
    assert_eq!(p.typ(), Type::TimeExceeded);
    assert_eq!(p.code(), 1);
    assert_eq!(p.data().len(), 0);
    assert_eq!(p.header(), &[0x0b, 0x01, 0x00, 0x00]);
    assert!(p.is_valid().is_ok());
    p.set_data(&[]);
    assert_eq!(p.len(), 4);
}

#[test]
fn buffer_shorter_than_the_header_is_rejected() {
    assert_eq!(Packet::new(vec![0u8; 3]), Err(Error::from(ErrorKind::InvalidFormat)));
    assert_eq!(Packet::new(Vec::new()).unwrap_err().kind(), ErrorKind::InvalidFormat);
    assert!(Packet::new(vec![0u8; 4]).is_ok());
}

#[test]
fn echo_message_without_its_body_is_reported_invalid() {
    let p = Packet::new(vec![0x08, 0x00, 0x00, 0x00, 0x12, 0x34, 0x00]).unwrap();
    assert_eq!(p.is_valid(), Err(Error::from(ErrorKind::InvalidFormat)));
    let q = Packet::new(vec![0x03, 0x00, 0x00, 0x00]).unwrap();
    assert_eq!(q.is_valid(), Err(Error::from(ErrorKind::InvalidFormat)));
    let r = Packet::new(vec![0x08, 0x00, 0x00, 0x00, 0x12, 0x34, 0x00, 0x01]).unwrap();
    assert!(r.is_valid().is_ok());
    assert_eq!(r.echo_data().unwrap().len(), 0);
}

#[test]
fn set_data_replaces_everything_behind_the_header() {
    let mut p = Packet::new(ECHO_PACKET_BYTES.to_vec()).unwrap();
    p.set_data(&[1, 2, 3, 4, 5, 6, 7, 8]);
    assert_eq!(p.data(), &[1, 2, 3, 4, 5, 6, 7, 8]);
    assert_eq!(p.header(), &[0x08, 0x00, 0x8e, 0xfe]);
    assert_eq!(p.echo_ident(), Some(0x0102));
    assert_eq!(p.echo_seqno(), Some(0x0304));
    assert_eq!(p.echo_data().unwrap(), &[5, 6, 7, 8]);
}

#[test]
fn echo_setters_leave_each_other_alone() {
    let mut p = Packet::new(ECHO_PACKET_BYTES.to_vec()).unwrap();
    p.set_echo_seqno(0x0001);
    assert_eq!(p.echo_ident(), Some(0x1234));
    assert_eq!(p.echo_seqno(), Some(0x0001));
    assert_eq!(p.echo_data().unwrap(), &ECHO_DATA_BYTES);
    p.set_echo_ident(0xbeef);
    assert_eq!(p.echo_ident(), Some(0xbeef));
    assert_eq!(p.echo_seqno(), Some(0x0001));
    p.set_echo_data(&[9, 9, 9, 9]);
    assert_eq!(p.as_bytes(), &[0x08, 0x00, 0x8e, 0xfe, 0xbe, 0xef, 0x00, 0x01, 9, 9, 9, 9]);
    p.set_code(7);
    assert_eq!(p.code(), 7);
    assert_eq!(p.typ(), Type::EchoRequest);
    assert_eq!(p.checksum(), 0x8efe);
}

#[test]
fn type_conversions() {
    let table = [
        (0, Type::EchoReply),
        (3, Type::DstUnreachable),
        (4, Type::SourceQuench),
        (5, Type::Redirect),
        (8, Type::EchoRequest),
        (9, Type::RouterAdvertisement),
        (10, Type::RouterSolicitation),
        (11, Type::TimeExceeded),
        (12, Type::ParameterProblem),
        (13, Type::Timestamp),
        (14, Type::TimestampReply),
        (15, Type::InformationRequest),
        (16, Type::InformationReply),
        (17, Type::AddressMaskRequest),
        (18, Type::AddressMaskReply),
    ];
    for (code, typ) in table {
        assert_eq!(Type::from(code), typ);
        assert_eq!(u8::from(typ), code);
    }
    assert_eq!(Type::from(1), Type::Unknown);
    assert_eq!(Type::from(2), Type::Unknown);
    assert_eq!(Type::from(6), Type::Unknown);
    assert_eq!(Type::from(7), Type::Unknown);
    assert_eq!(Type::from(19), Type::Unknown);
    assert_eq!(Type::from(0xff), Type::Unknown);
    assert_eq!(u8::from(Type::Unknown), 0xff);
    assert!(Type::EchoReply < Type::DstUnreachable);
    assert!(Type::AddressMaskReply < Type::Unknown);
}

#[test]
fn type_names() {
    assert_eq!(Type::EchoReply.name(), "echo reply");
    assert_eq!(Type::DstUnreachable.name(), "destination unreachable");
    assert_eq!(Type::SourceQuench.name(), "source quench");
    assert_eq!(Type::Redirect.name(), "redirect");
    assert_eq!(Type::EchoRequest.name(), "echo request");
    assert_eq!(Type::RouterAdvertisement.name(), "router advertisement");
    assert_eq!(Type::RouterSolicitation.name(), "router solicitaion");
    assert_eq!(Type::TimeExceeded.name(), "time exceeded");
    assert_eq!(Type::ParameterProblem.name(), "parameter problem");
    assert_eq!(Type::Timestamp.name(), "timestamp");
    assert_eq!(Type::TimestampReply.name(), "timestamp reply");
    assert_eq!(Type::InformationRequest.name(), "information request");
    assert_eq!(Type::InformationReply.name(), "information reply");
    assert_eq!(Type::AddressMaskRequest.name(), "address mask request");
    assert_eq!(Type::AddressMaskReply.name(), "address mask reply");
    assert_eq!(Type::Unknown.name(), "unknown");
}

#[test]
fn unreachable_code_conversions() {
    let table = [
        (0, DstUnreachableCode::NetworkUnreachable),
        (1, DstUnreachableCode::HostUnreachable),
        (2, DstUnreachableCode::ProtocolUnreachable),
        (3, DstUnreachableCode::PortUnreachable),
        (4, DstUnreachableCode::FragmentRequired),
        (5, DstUnreachableCode::SrcRoutingFailed),
    ];
    for (code, reason) in table {
        assert_eq!(DstUnreachableCode::from(code), reason);
        assert_eq!(u8::from(reason), code);
    }
    assert_eq!(DstUnreachableCode::from(6), DstUnreachableCode::Unknown);
    assert_eq!(DstUnreachableCode::from(0xff), DstUnreachableCode::Unknown);
    assert_eq!(u8::from(DstUnreachableCode::Unknown), 0xff);
}
