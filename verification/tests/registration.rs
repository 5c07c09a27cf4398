use dvb_si::descriptors::registration::{RegistrationDescriptor, TAG};
use dvb_si::Error;

#[test]
fn parse_format_identifier_only() {
    let bytes = [TAG, 4, b'A', b'C', b'-', b'3'];
    let d = RegistrationDescriptor::parse(&bytes).unwrap();
    assert_eq!(&d.format_identifier, b"AC-3");
    assert!(d.additional_identification_info.is_empty());
}

#[test]
fn parse_with_additional_info() {
    let bytes = [TAG, 6, b'H', b'D', b'M', b'V', 0x01, 0x02];
    let d = RegistrationDescriptor::parse(&bytes).unwrap();
    assert_eq!(&d.format_identifier, b"HDMV");
    assert_eq!(d.additional_identification_info, &[0x01, 0x02]);
}

#[test]
fn registration_parse_rejects_wrong_tag() {
    let err = RegistrationDescriptor::parse(&[0x06, 4, 0, 0, 0, 0]).unwrap_err();
    assert!(matches!(err, Error::InvalidDescriptor { tag: 0x06, .. }));
}

#[test]
fn registration_parse_rejects_short_header() {
    let err = RegistrationDescriptor::parse(&[TAG]).unwrap_err();
    assert!(matches!(err, Error::BufferTooShort { .. }));
}

#[test]
fn parse_rejects_length_too_short_for_format_id() {
    let bytes = [TAG, 3, 0, 0, 0];
    let err = RegistrationDescriptor::parse(&bytes).unwrap_err();
    assert!(matches!(err, Error::InvalidDescriptor { tag: TAG, .. }));
}

#[test]
fn parse_rejects_length_overflow() {
    let bytes = [TAG, 10, 0, 0, 0, 0];
    let err = RegistrationDescriptor::parse(&bytes).unwrap_err();
    assert!(matches!(err, Error::BufferTooShort { .. }));
}

#[test]
fn registration_serialize_round_trip() {
    let d = RegistrationDescriptor {
        format_identifier: *b"dtsx",
        additional_identification_info: &[0xAA, 0xBB],
    };
    let mut buf = vec![0u8; d.serialized_len()];
    d.serialize_into(&mut buf).unwrap();
    let reparsed = RegistrationDescriptor::parse(&buf).unwrap();
    assert_eq!(d, reparsed);
}

#[test]
fn serialize_rejects_small_buffer() {
    let d = RegistrationDescriptor {
        format_identifier: *b"AC-3",
        additional_identification_info: &[],
    };
    let mut tiny = vec![0u8; 3];
    let err = d.serialize_into(&mut tiny).unwrap_err();
    assert!(matches!(err, Error::OutputBufferTooSmall { .. }));
}

#[test]
fn registration_descriptor_length_matches_payload() {
    let d = RegistrationDescriptor {
        format_identifier: *b"AC-3",
        additional_identification_info: &[0x01],
    };
    assert_eq!(d.serialized_len() - 2, 5);
}


#[test]
fn registration_exact_bytes() {
    let d = RegistrationDescriptor { format_identifier: *b"HDMV", additional_identification_info: &[0xFF, 0x1B] };
    let mut buf = vec![0u8; d.serialized_len()];
    assert_eq!(d.serialize_into(&mut buf).unwrap(), 8);
    assert_eq!(buf, vec![TAG, 6, b'H', b'D', b'M', b'V', 0xFF, 0x1B]);
}

#[test]
fn registration_ignores_bytes_after_descriptor() {
    let bytes = [TAG, 5, b'A', b'C', b'-', b'3', 0x07, 0x99];
    let d = RegistrationDescriptor::parse(&bytes).unwrap();
    assert_eq!(d.additional_identification_info, &[0x07]);
}
