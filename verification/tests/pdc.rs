use dvb_si::descriptors::pdc::{PdcDescriptor, TAG};
use dvb_si::Error;

#[test]
fn parse_extracts_pil() {
    // body 0x0A_BCDE: top nibble reserved (0), PIL = 0x0ABCDE.
    let bytes = [TAG, 3, 0x0A, 0xBC, 0xDE];
    let d = PdcDescriptor::parse(&bytes).unwrap();
    assert_eq!(d.programme_identification_label, 0x0A_BCDE);
}

#[test]
fn pdc_parse_ignores_reserved_bits() {
    // Top nibble set (reserved) must be masked off, not rejected (§5.1).
    let bytes = [TAG, 3, 0xFA, 0xBC, 0xDE];
    let d = PdcDescriptor::parse(&bytes).unwrap();
    assert_eq!(d.programme_identification_label, 0x0A_BCDE);
}

#[test]
fn pdc_parse_rejects_wrong_tag() {
    assert!(matches!(
        PdcDescriptor::parse(&[0x6A, 3, 0, 0, 0]).unwrap_err(),
        Error::InvalidDescriptor { tag: 0x6A, .. }
    ));
}

#[test]
fn pdc_parse_rejects_wrong_length() {
    assert!(matches!(
        PdcDescriptor::parse(&[TAG, 2, 0, 0]).unwrap_err(),
        Error::InvalidDescriptor { tag: TAG, .. }
    ));
}

#[test]
fn pdc_parse_rejects_short_body() {
    assert!(matches!(
        PdcDescriptor::parse(&[TAG, 3, 0, 0]).unwrap_err(),
        Error::BufferTooShort { .. }
    ));
}

#[test]
fn pdc_serialize_round_trip() {
    let d = PdcDescriptor {
        programme_identification_label: 0x0A_BCDE,
    };
    let mut buf = vec![0u8; d.serialized_len()];
    d.serialize_into(&mut buf).unwrap();
    // Reserved nibble emitted as 1s.
    assert_eq!(buf, [TAG, 3, 0xFA, 0xBC, 0xDE]);
    assert_eq!(PdcDescriptor::parse(&buf).unwrap(), d);
}

#[test]
fn pdc_serialize_rejects_too_small_buffer() {
    let d = PdcDescriptor {
        programme_identification_label: 0,
    };
    let mut buf = vec![0u8; 2];
    assert!(matches!(
        d.serialize_into(&mut buf).unwrap_err(),
        Error::OutputBufferTooSmall { .. }
    ));
}

#[test]
fn serialize_rejects_over_range_pil() {
    let d = PdcDescriptor {
        programme_identification_label: 0x10_0000, // 21 bits
    };
    let mut buf = vec![0u8; d.serialized_len()];
    assert!(matches!(
        d.serialize_into(&mut buf).unwrap_err(),
        Error::InvalidDescriptor { tag: TAG, .. }
    ));
}


#[test]
fn pdc_set_pil_and_read_components() {
    let mut d = PdcDescriptor { programme_identification_label: 0 };
    d.set_pil(24, 12, 20, 15).unwrap();
    assert_eq!(d.programme_identification_label, (24 << 15) | (12 << 11) | (20 << 6) | 15);
    assert_eq!(d.pil_day(), 24);
    assert_eq!(d.pil_month(), 12);
    assert_eq!(d.pil_hour(), 20);
    assert_eq!(d.pil_minute(), 15);
}

#[test]
fn pdc_set_pil_rejects_out_of_range() {
    let mut d = PdcDescriptor { programme_identification_label: 0x1234 };
    assert!(matches!(d.set_pil(32, 1, 1, 1).unwrap_err(), Error::ValueOutOfRange { .. }));
    assert!(matches!(d.set_pil(1, 16, 1, 1).unwrap_err(), Error::ValueOutOfRange { .. }));
    assert!(matches!(d.set_pil(1, 1, 32, 1).unwrap_err(), Error::ValueOutOfRange { .. }));
    assert!(matches!(d.set_pil(1, 1, 1, 64).unwrap_err(), Error::ValueOutOfRange { .. }));
    assert_eq!(d.programme_identification_label, 0x1234);
}

#[test]
fn pdc_components_of_parsed_label() {
    let d = PdcDescriptor::parse(&[TAG, 3, 0xFA, 0xBC, 0xDE]).unwrap();
    assert_eq!(d.pil_day(), ((0x0ABCDE_u32 >> 15) & 0x1F) as u8);
    assert_eq!(d.pil_month(), ((0x0ABCDE_u32 >> 11) & 0x0F) as u8);
    assert_eq!(d.pil_hour(), ((0x0ABCDE_u32 >> 6) & 0x1F) as u8);
    assert_eq!(d.pil_minute(), (0x0ABCDE_u32 & 0x3F) as u8);
}

#[test]
fn pdc_parse_rejects_truncated_header() {
    assert!(matches!(PdcDescriptor::parse(&[TAG]).unwrap_err(), Error::BufferTooShort { need: 2, have: 1, .. }));
}

#[test]
fn pdc_over_range_checked_before_buffer() {
    let d = PdcDescriptor { programme_identification_label: 0x10_0000 };
    let mut buf = [0u8; 1];
    assert!(matches!(d.serialize_into(&mut buf).unwrap_err(), Error::InvalidDescriptor { tag: TAG, .. }));
    assert_eq!(buf, [0]);
}
