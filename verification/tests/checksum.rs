use proto::packet::checksum;

#[test]
fn empty_span_sums_to_zero() {
    assert_eq!(checksum::calc(&[], 0), 0x0000);
    assert_eq!(checksum::calc(&[], 10), 0x0000);
    assert!(checksum::verify(&[], 2, 0));
}

#[test]
fn single_word() {
    assert_eq!(checksum::calc(&[0x12, 0x34], 10), 0xffff - 0x1234);
    assert_eq!(checksum::calc(&[0x00, 0x01], 10), 0xfffe);
    assert_eq!(checksum::calc(&[0x00, 0x00], 10), 0x0000);
    assert_eq!(checksum::calc(&[0xff, 0xff], 10), 0x0000);
}

#[test]
fn words_are_big_endian() {
    assert_eq!(checksum::calc(&[0x01, 0x00], 10), 0xfeff);
    assert_eq!(checksum::calc(&[0x00, 0x01], 10), 0xfffe);
}

#[test]
fn carry_is_folded_back() {
    assert_eq!(checksum::calc(&[0xff, 0xff, 0x00, 0x01], 10), 0xfffe);
    assert_eq!(checksum::calc(&[0x80, 0x00, 0x80, 0x00], 10), 0xfffe);
    assert_eq!(checksum::calc(&[0xff, 0xfe, 0x00, 0x01], 10), 0x0000);
    assert_eq!(checksum::calc(&[0xff, 0xff, 0xff, 0xff, 0xff, 0xff], 10), 0x0000);
}

#[test]
fn word_at_the_field_is_left_out() {
    assert_eq!(checksum::calc(&[0x12, 0x34, 0xab, 0xcd], 2), 0xffff - 0x1234);
    assert_eq!(checksum::calc(&[0x12, 0x34, 0xab, 0xcd], 0), 0xffff - 0xabcd);
    assert_eq!(checksum::calc(&[0x12, 0x34, 0x00, 0x00], 2), checksum::calc(&[0x12, 0x34, 0xff, 0xee], 2));
    assert_eq!(checksum::calc(&[0x12, 0x34, 0xab, 0xcd], 4), 0xffff - 0x1234 - 0xabcd);
}

#[test]
fn odd_offset_leaves_nothing_out() {
    assert_eq!(checksum::calc(&[0x12, 0x34, 0xab, 0xcd], 1), 0xffff - 0x1234 - 0xabcd);
    assert_eq!(checksum::calc(&[0x12, 0x34, 0xab, 0xcd], 3), 0xffff - 0x1234 - 0xabcd);
}

#[test]
fn trailing_byte_takes_no_part() {
    assert_eq!(checksum::calc(&[0x12, 0x34, 0x56], 10), checksum::calc(&[0x12, 0x34], 10));
    assert_eq!(checksum::calc(&[0x56], 10), 0x0000);
    assert_eq!(checksum::calc(&[0x12, 0x34, 0xab, 0xcd, 0xff], 2), 0xffff - 0x1234);
}

#[test]
fn verify_compares_with_the_expected_value() {
    let data = [0x45, 0x00, 0x00, 0x34, 0x51, 0x25];
    let sum = checksum::calc(&data, 10);
    assert_eq!(sum, 0xffff - (0x4500 + 0x0034 + 0x5125));
    assert!(checksum::verify(&data, 10, sum));
    assert!(!checksum::verify(&data, 10, sum + 1));
}
