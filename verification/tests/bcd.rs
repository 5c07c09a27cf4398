use dvb_si::bcd::{bcd_to_decimal, decimal_to_bcd, from_bcd_byte, to_bcd_byte};

#[test]
fn bcd_byte_round_trip() {
    for v in 0u8..100 {
        let b = to_bcd_byte(v).unwrap();
        assert_eq!(from_bcd_byte(b), Some(v));
    }
    assert_eq!(to_bcd_byte(100), None);
    assert_eq!(to_bcd_byte(42), Some(0x42));
    assert_eq!(from_bcd_byte(0x1A), None);
    assert_eq!(from_bcd_byte(0xA1), None);
}

#[test]
fn bcd_field_round_trip() {
    assert_eq!(decimal_to_bcd(1_172_500, 8), Some(0x0117_2500));
    assert_eq!(bcd_to_decimal(0x0117_2500, 8), Some(1_172_500));
    assert_eq!(decimal_to_bcd(100_000_000, 8), None);
    assert_eq!(decimal_to_bcd(9_999, 4), Some(0x9999));
    assert_eq!(bcd_to_decimal(0x12F4, 4), None);
    for x in [0u64, 7, 10, 99, 1234, 9999] {
        assert_eq!(bcd_to_decimal(decimal_to_bcd(x, 4).unwrap(), 4), Some(x));
    }
    for v in [0x0000u64, 0x0001, 0x1920, 0x9999] {
        assert_eq!(decimal_to_bcd(bcd_to_decimal(v, 4).unwrap(), 4), Some(v));
    }
}

#[test]
fn bcd_ignores_nibbles_above_width() {
    assert_eq!(bcd_to_decimal(0xAB12, 2), Some(12));
    assert_eq!(decimal_to_bcd(0, 0), Some(0));
    assert_eq!(decimal_to_bcd(1, 0), None);
}
