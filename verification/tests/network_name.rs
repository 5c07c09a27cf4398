use dvb_si::descriptors::network_name::{NetworkNameDescriptor, TAG};
use dvb_si::Error;

#[test]
fn parse_extracts_network_name() {
    let raw: Vec<u8> = vec![
        TAG, 0x04, // length = 4
        b'E', b'U', b'T', b'E',
    ];
    let desc = NetworkNameDescriptor::parse(&raw).unwrap();
    assert_eq!(desc.network_name.raw(), b"EUTE");
}

#[test]
fn network_name_parse_rejects_wrong_tag() {
    let raw: Vec<u8> = vec![
        0x41, // wrong tag
        0x04, b'E', b'U', b'T', b'E',
    ];
    let err = NetworkNameDescriptor::parse(&raw).unwrap_err();
    assert!(
        matches!(err, Error::InvalidDescriptor { tag: 0x41, .. }),
        "expected InvalidDescriptor(tag=0x41), got {err:?}"
    );
}

#[test]
fn parse_rejects_buffer_shorter_than_header() {
    let raw: &[u8] = &[0x40];
    let err = NetworkNameDescriptor::parse(raw).unwrap_err();
    assert!(
        matches!(err, Error::BufferTooShort { need: 2, .. }),
        "expected BufferTooShort(need=2), got {err:?}"
    );
}

#[test]
fn parse_rejects_length_byte_overflowing_buffer() {
    let raw: Vec<u8> = vec![
        0x40, 0x05, // claims 5 bytes follow
        0xAA, 0xBB, // only 2 bytes available
    ];
    let err = NetworkNameDescriptor::parse(&raw).unwrap_err();
    assert!(matches!(err, Error::BufferTooShort { .. }));
}

#[test]
fn serialize_round_trip_preserves_bytes() {
    let raw: Vec<u8> = vec![TAG, 0x04, b'E', b'U', b'T', b'E'];
    let parsed = NetworkNameDescriptor::parse(&raw).unwrap();
    let mut buf = vec![0u8; parsed.serialized_len()];
    let written = parsed.serialize_into(&mut buf).unwrap();
    assert_eq!(written, parsed.serialized_len());

    let reparsed = NetworkNameDescriptor::parse(&buf).unwrap();
    assert_eq!(parsed, reparsed);
    assert_eq!(&raw, &buf[..]);
}

#[test]
fn network_name_serialize_rejects_too_small_buffer() {
    let raw: Vec<u8> = vec![TAG, 0x04, b'E', b'U', b'T', b'E'];
    let parsed = NetworkNameDescriptor::parse(&raw).unwrap();
    let mut tiny = vec![0u8; 1];
    let err = parsed.serialize_into(&mut tiny).unwrap_err();
    assert!(
        matches!(err, Error::OutputBufferTooSmall { need, .. } if need == parsed.serialized_len()),
        "expected OutputBufferTooSmall(need={}), got {err:?}",
        parsed.serialized_len()
    );
}

#[test]
fn empty_network_name_is_valid() {
    let raw: &[u8] = &[TAG, 0x00];
    let desc = NetworkNameDescriptor::parse(raw).unwrap();
    assert!(desc.network_name.raw().is_empty());
}

#[test]
fn descriptor_length_getter_matches_payload() {
    let raw: Vec<u8> = vec![TAG, 0x07, b'F', b'R', b'A', b'N', b'C', b'E', b'2'];
    let desc = NetworkNameDescriptor::parse(&raw).unwrap();
    assert_eq!(
        desc.descriptor_length(),
        desc.network_name.raw().len() as u8
    );
}

