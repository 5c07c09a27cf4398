use dvb_si::descriptors::related_content::{RelatedContentDescriptor, TAG};
use dvb_si::Error;

#[test]
fn parse_empty_marker() {
    let bytes = [TAG, 0];
    let d = RelatedContentDescriptor::parse(&bytes).unwrap();
    assert_eq!(d, RelatedContentDescriptor);
}

#[test]
fn related_content_parse_rejects_wrong_tag() {
    assert!(matches!(
        RelatedContentDescriptor::parse(&[0x73, 0]).unwrap_err(),
        Error::InvalidDescriptor { tag: 0x73, .. }
    ));
}

#[test]
fn related_content_parse_rejects_short_header() {
    assert!(matches!(
        RelatedContentDescriptor::parse(&[TAG]).unwrap_err(),
        Error::BufferTooShort { .. }
    ));
}

#[test]
fn parse_rejects_length_overrunning_buffer() {
    let bytes = [TAG, 3, 1, 2];
    assert!(matches!(
        RelatedContentDescriptor::parse(&bytes).unwrap_err(),
        Error::BufferTooShort { .. }
    ));
}

#[test]
fn related_content_serialize_round_trip() {
    let d = RelatedContentDescriptor;
    let mut buf = vec![0u8; d.serialized_len()];
    let n = d.serialize_into(&mut buf).unwrap();
    assert_eq!(n, 2);
    assert_eq!(buf, vec![TAG, 0]);
    assert_eq!(RelatedContentDescriptor::parse(&buf).unwrap(), d);
}

#[test]
fn related_content_serialize_rejects_too_small_buffer() {
    let d = RelatedContentDescriptor;
    let mut buf = vec![0u8; 1];
    assert!(matches!(
        d.serialize_into(&mut buf).unwrap_err(),
        Error::OutputBufferTooSmall { .. }
    ));
}


#[test]
fn related_content_ignores_payload() {
    let d = RelatedContentDescriptor::parse(&[TAG, 2, 0xAA, 0xBB]).unwrap();
    assert_eq!(d, RelatedContentDescriptor);
    assert_eq!(d.descriptor_length(), 0);
    assert_eq!(d.serialized_len(), 2);
}
