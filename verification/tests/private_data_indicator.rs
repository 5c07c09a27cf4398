use dvb_si::descriptors::private_data_indicator::{PrivateDataIndicatorDescriptor, TAG};
use dvb_si::Error;

#[test]
fn parse_private_data_specifier() {
    let bytes = [TAG, 4, 0x00, 0x00, 0x00, 0x01];
    let d = PrivateDataIndicatorDescriptor::parse(&bytes).unwrap();
    assert_eq!(d.private_data_specifier, [0x00, 0x00, 0x00, 0x01]);
}

#[test]
fn private_data_indicator_parse_rejects_wrong_tag() {
    let err = PrivateDataIndicatorDescriptor::parse(&[0x10, 4, 0, 0, 0, 0]).unwrap_err();
    assert!(matches!(err, Error::InvalidDescriptor { tag: 0x10, .. }));
}

#[test]
fn private_data_indicator_parse_rejects_wrong_length() {
    // Length says 3 but valid is 4 — buffer is large enough to read header+3
    let bytes = [TAG, 3, 0, 0, 0, 0];
    let err = PrivateDataIndicatorDescriptor::parse(&bytes).unwrap_err();
    assert!(matches!(err, Error::InvalidDescriptor { .. }));
}

#[test]
fn private_data_indicator_parse_rejects_short_buffer() {
    let err = PrivateDataIndicatorDescriptor::parse(&[TAG]).unwrap_err();
    assert!(matches!(err, Error::BufferTooShort { .. }));
}

#[test]
fn private_data_indicator_serialize_round_trip() {
    let d = PrivateDataIndicatorDescriptor {
        private_data_specifier: [0xAA, 0xBB, 0xCC, 0xDD],
    };
    let mut buf = vec![0u8; d.serialized_len()];
    d.serialize_into(&mut buf).unwrap();
    let reparsed = PrivateDataIndicatorDescriptor::parse(&buf).unwrap();
    assert_eq!(d, reparsed);
}

#[test]
fn private_data_indicator_descriptor_length_matches_payload() {
    let d = PrivateDataIndicatorDescriptor {
        private_data_specifier: [0x00, 0x00, 0x00, 0x01],
    };
    assert_eq!(d.serialized_len() - 2, 4);
}


#[test]
fn private_data_indicator_exact_bytes() {
    let d = PrivateDataIndicatorDescriptor { private_data_specifier: [1, 2, 3, 4] };
    let mut buf = [0u8; 6];
    assert_eq!(d.serialize_into(&mut buf).unwrap(), 6);
    assert_eq!(buf, [TAG, 4, 1, 2, 3, 4]);
}

#[test]
fn private_data_indicator_truncated_body() {
    assert!(matches!(
        PrivateDataIndicatorDescriptor::parse(&[TAG, 4, 0]).unwrap_err(),
        Error::BufferTooShort { need: 6, have: 3, .. }
    ));
}
