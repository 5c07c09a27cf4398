use dvb_si::descriptors::private_data_specifier::{PrivateDataSpecifierDescriptor, TAG};
use dvb_si::Error;

#[test]
fn parse_extracts_specifier() {
    let bytes = [TAG, 4, 0x00, 0x00, 0x00, 0x28];
    let d = PrivateDataSpecifierDescriptor::parse(&bytes).unwrap();
    assert_eq!(d.private_data_specifier, 0x0000_0028);
}

#[test]
fn private_data_specifier_parse_rejects_wrong_tag() {
    let err = PrivateDataSpecifierDescriptor::parse(&[0x60, 4, 0, 0, 0, 0]).unwrap_err();
    assert!(matches!(err, Error::InvalidDescriptor { tag: 0x60, .. }));
}

#[test]
fn private_data_specifier_parse_rejects_short_buffer() {
    let err = PrivateDataSpecifierDescriptor::parse(&[TAG]).unwrap_err();
    assert!(matches!(err, Error::BufferTooShort { .. }));
}

#[test]
fn private_data_specifier_parse_rejects_truncated_body() {
    // length=4 but only 2 payload bytes present.
    let err = PrivateDataSpecifierDescriptor::parse(&[TAG, 4, 0, 0]).unwrap_err();
    assert!(matches!(err, Error::BufferTooShort { .. }));
}

#[test]
fn private_data_specifier_parse_rejects_wrong_length() {
    let err = PrivateDataSpecifierDescriptor::parse(&[TAG, 3, 0, 0, 0]).unwrap_err();
    assert!(matches!(err, Error::InvalidDescriptor { .. }));
}

#[test]
fn private_data_specifier_serialize_round_trip() {
    let d = PrivateDataSpecifierDescriptor {
        private_data_specifier: 0xDEAD_BEEF,
    };
    let mut buf = vec![0u8; d.serialized_len()];
    d.serialize_into(&mut buf).unwrap();
    let re = PrivateDataSpecifierDescriptor::parse(&buf).unwrap();
    assert_eq!(d, re);
}

#[test]
fn private_data_specifier_serialize_rejects_too_small_buffer() {
    let d = PrivateDataSpecifierDescriptor {
        private_data_specifier: 1,
    };
    let mut tiny = [0u8; 3];
    let err = d.serialize_into(&mut tiny).unwrap_err();
    assert!(matches!(err, Error::OutputBufferTooSmall { .. }));
}

#[test]
fn private_data_specifier_descriptor_length_matches_payload() {
    let d = PrivateDataSpecifierDescriptor {
        private_data_specifier: 0,
    };
    assert_eq!(d.serialized_len() - 2, 4);
}


#[test]
fn private_data_specifier_exact_bytes() {
    let d = PrivateDataSpecifierDescriptor { private_data_specifier: 0x0102_0304 };
    let mut buf = [0u8; 6];
    assert_eq!(d.serialize_into(&mut buf).unwrap(), 6);
    assert_eq!(buf, [TAG, 4, 1, 2, 3, 4]);
}

#[test]
fn private_data_specifier_small_buffer_untouched() {
    let d = PrivateDataSpecifierDescriptor { private_data_specifier: 7 };
    let mut buf = [9u8; 5];
    assert!(matches!(d.serialize_into(&mut buf).unwrap_err(), Error::OutputBufferTooSmall { need: 6, have: 5 }));
    assert_eq!(buf, [9; 5]);
}
