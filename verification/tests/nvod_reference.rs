use dvb_si::descriptors::nvod_reference::{NvodReferenceDescriptor, NvodReferenceEntry, TAG};
use dvb_si::Error;

#[test]
fn parse_single_triple() {
    let bytes = [TAG, 6, 0x00, 0x01, 0x00, 0x02, 0x00, 0x03];
    let d = NvodReferenceDescriptor::parse(&bytes).unwrap();
    assert_eq!(d.entries.len(), 1);
    assert_eq!(d.entries[0].transport_stream_id, 1);
    assert_eq!(d.entries[0].original_network_id, 2);
    assert_eq!(d.entries[0].service_id, 3);
}

#[test]
fn parse_multiple_triples_preserves_order() {
    let bytes = [
        TAG, 12, 0x00, 0x01, 0x00, 0x02, 0x00, 0x03, 0x00, 0x04, 0x00, 0x05, 0x00, 0x06,
    ];
    let d = NvodReferenceDescriptor::parse(&bytes).unwrap();
    assert_eq!(d.entries.len(), 2);
    assert_eq!(d.entries[1].transport_stream_id, 4);
    assert_eq!(d.entries[1].original_network_id, 5);
    assert_eq!(d.entries[1].service_id, 6);
}

#[test]
fn nvod_reference_parse_rejects_wrong_tag() {
    assert!(matches!(
        NvodReferenceDescriptor::parse(&[0x4C, 6, 0, 0, 0, 0, 0, 0]).unwrap_err(),
        Error::InvalidDescriptor { tag: 0x4C, .. }
    ));
}

#[test]
fn nvod_reference_parse_rejects_short_buffer() {
    let bytes = [TAG, 12, 0x00, 0x01, 0x00, 0x02, 0x00, 0x03];
    assert!(matches!(
        NvodReferenceDescriptor::parse(&bytes).unwrap_err(),
        Error::BufferTooShort { .. }
    ));
}

#[test]
fn parse_rejects_length_not_multiple_of_6() {
    let bytes = [TAG, 5, 0x00, 0x01, 0x00, 0x02, 0x00];
    assert!(matches!(
        NvodReferenceDescriptor::parse(&bytes).unwrap_err(),
        Error::InvalidDescriptor { tag: TAG, .. }
    ));
}

#[test]
fn nvod_reference_empty_descriptor_valid() {
    let d = NvodReferenceDescriptor::parse(&[TAG, 0]).unwrap();
    assert!(d.entries.is_empty());
}

#[test]
fn nvod_reference_serialize_round_trip() {
    let d = NvodReferenceDescriptor {
        entries: vec![
            NvodReferenceEntry {
                transport_stream_id: 0x1234,
                original_network_id: 0x5678,
                service_id: 0x9ABC,
            },
            NvodReferenceEntry {
                transport_stream_id: 0x0001,
                original_network_id: 0x0002,
                service_id: 0x0003,
            },
        ],
    };
    let mut buf = vec![0u8; d.serialized_len()];
    d.serialize_into(&mut buf).unwrap();
    assert_eq!(NvodReferenceDescriptor::parse(&buf).unwrap(), d);
}

#[test]
fn serialize_rejects_over_range_body() {
    // 43 triples = 258 body bytes, past the u8 length field.
    let d = NvodReferenceDescriptor {
        entries: vec![
            NvodReferenceEntry {
                transport_stream_id: 1,
                original_network_id: 2,
                service_id: 3,
            };
            43
        ],
    };
    let mut buf = vec![0u8; d.serialized_len()];
    assert!(matches!(
        d.serialize_into(&mut buf).unwrap_err(),
        Error::SectionLengthOverflow { .. }
    ));
}

