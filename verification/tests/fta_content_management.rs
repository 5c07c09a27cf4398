use dvb_si::descriptors::fta_content_management::{FtaContentManagementDescriptor, TAG};
use dvb_si::Error;

#[test]
fn parse_extracts_all_fields() {
    // user_defined=1, reserved=000, do_not_scramble=1, cra=10, revocation=1
    // = 1 000 1 10 1 = 0b1000_1101 = 0x8D
    let bytes = [TAG, 1, 0x8D];
    let d = FtaContentManagementDescriptor::parse(&bytes).unwrap();
    assert!(d.user_defined);
    assert!(d.do_not_scramble);
    assert_eq!(d.control_remote_access_over_internet, 0b10);
    assert!(d.do_not_apply_revocation);
}

#[test]
fn fta_content_management_parse_ignores_reserved_bits() {
    // reserved bits all set, everything else zero: 0 111 0 00 0 = 0x70.
    let bytes = [TAG, 1, 0x70];
    let d = FtaContentManagementDescriptor::parse(&bytes).unwrap();
    assert!(!d.user_defined);
    assert!(!d.do_not_scramble);
    assert_eq!(d.control_remote_access_over_internet, 0);
    assert!(!d.do_not_apply_revocation);
}

#[test]
fn fta_content_management_parse_rejects_wrong_tag() {
    assert!(matches!(
        FtaContentManagementDescriptor::parse(&[0x7F, 1, 0]).unwrap_err(),
        Error::InvalidDescriptor { tag: 0x7F, .. }
    ));
}

#[test]
fn fta_content_management_parse_rejects_wrong_length() {
    assert!(matches!(
        FtaContentManagementDescriptor::parse(&[TAG, 2, 0, 0]).unwrap_err(),
        Error::InvalidDescriptor { tag: TAG, .. }
    ));
}

#[test]
fn fta_content_management_parse_rejects_short_body() {
    assert!(matches!(
        FtaContentManagementDescriptor::parse(&[TAG, 1]).unwrap_err(),
        Error::BufferTooShort { .. }
    ));
}

#[test]
fn fta_content_management_serialize_round_trip() {
    let d = FtaContentManagementDescriptor {
        user_defined: true,
        do_not_scramble: true,
        control_remote_access_over_internet: 0b10,
        do_not_apply_revocation: true,
    };
    let mut buf = vec![0u8; d.serialized_len()];
    d.serialize_into(&mut buf).unwrap();
    // Reserved 3 bits emitted as 1s: 1 111 1 10 1 = 0xFD.
    assert_eq!(buf, [TAG, 1, 0xFD]);
    assert_eq!(FtaContentManagementDescriptor::parse(&buf).unwrap(), d);
}

#[test]
fn fta_content_management_serialize_rejects_too_small_buffer() {
    let d = FtaContentManagementDescriptor {
        user_defined: false,
        do_not_scramble: false,
        control_remote_access_over_internet: 0,
        do_not_apply_revocation: false,
    };
    let mut buf = vec![0u8; 2];
    assert!(matches!(
        d.serialize_into(&mut buf).unwrap_err(),
        Error::OutputBufferTooSmall { .. }
    ));
}

#[test]
fn serialize_rejects_over_range_cra() {
    let d = FtaContentManagementDescriptor {
        user_defined: false,
        do_not_scramble: false,
        control_remote_access_over_internet: 0b100, // 3 bits
        do_not_apply_revocation: false,
    };
    let mut buf = vec![0u8; d.serialized_len()];
    assert!(matches!(
        d.serialize_into(&mut buf).unwrap_err(),
        Error::InvalidDescriptor { tag: TAG, .. }
    ));
}


#[test]
fn fta_content_management_parse_rejects_short_header() {
    assert!(matches!(
        FtaContentManagementDescriptor::parse(&[TAG]).unwrap_err(),
        Error::BufferTooShort { need: 2, have: 1, .. }
    ));
}

#[test]
fn fta_content_management_length_checked_before_body() {
    // wrong length reported even though the body is missing
    assert!(matches!(
        FtaContentManagementDescriptor::parse(&[TAG, 3]).unwrap_err(),
        Error::InvalidDescriptor { tag: TAG, .. }
    ));
}

#[test]
fn fta_content_management_over_range_checked_before_buffer() {
    let d = FtaContentManagementDescriptor {
        user_defined: true,
        do_not_scramble: false,
        control_remote_access_over_internet: 4,
        do_not_apply_revocation: false,
    };
    let mut buf = [0u8; 1];
    assert!(matches!(d.serialize_into(&mut buf).unwrap_err(), Error::InvalidDescriptor { tag: TAG, .. }));
    assert_eq!(buf, [0]);
}

#[test]
fn fta_content_management_exact_bytes_and_length() {
    let d = FtaContentManagementDescriptor {
        user_defined: false,
        do_not_scramble: true,
        control_remote_access_over_internet: 3,
        do_not_apply_revocation: false,
    };
    let mut buf = [0u8; 4];
    assert_eq!(d.serialize_into(&mut buf).unwrap(), 3);
    assert_eq!(buf, [TAG, 1, 0x7E, 0]);
    assert_eq!(d.descriptor_length(), 1);
    assert_eq!(d.serialized_len(), 3);
}
