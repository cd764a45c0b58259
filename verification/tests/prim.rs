use ldap3_proto::prim::{ber_bool_to_bool, ber_integer_to_i64};

#[test]
fn integer_reads_big_endian() {
    assert_eq!(ber_integer_to_i64(vec![0x06, 0x50]), Some(1616));
    assert_eq!(ber_integer_to_i64(vec![]), Some(0));
    assert_eq!(ber_integer_to_i64(vec![0xff]), Some(255));
    assert_eq!(ber_integer_to_i64(vec![0xff; 8]), Some(-1));
    assert_eq!(ber_integer_to_i64(vec![0; 9]), None);
}

#[test]
fn boolean_reads_first_octet() {
    assert_eq!(ber_bool_to_bool(vec![]), None);
    assert_eq!(ber_bool_to_bool(vec![0]), Some(false));
    assert_eq!(ber_bool_to_bool(vec![1]), Some(true));
    assert_eq!(ber_bool_to_bool(vec![0xff, 0]), Some(true));
}

#[test]
fn integer_reads_eight_octets_as_signed() {
    assert_eq!(
        ber_integer_to_i64(vec![0x80, 0, 0, 0, 0, 0, 0, 0]),
        Some(i64::MIN)
    );
    assert_eq!(
        ber_integer_to_i64(vec![0x7f, 0xff, 0xff, 0xff, 0xff, 0xff, 0xff, 0xff]),
        Some(i64::MAX)
    );
    assert_eq!(ber_integer_to_i64(vec![0x80]), Some(128));
    assert_eq!(ber_integer_to_i64(vec![1, 0, 0]), Some(65536));
    assert_eq!(ber_integer_to_i64(vec![0, 0, 0, 0, 0, 0, 0, 0, 1]), None);
}
