use dvb_si::descriptors::partial_transport_stream::{PartialTransportStreamDescriptor, TAG};
use dvb_si::Error;

#[test]
fn parse_extracts_fields_and_ignores_reserved() {
    // peak_rate=0x012345, min=0x0ABCDE, max=0x1234. Reserved bits set to 1.
    let bytes = [TAG, 8, 0xC1, 0x23, 0x45, 0xCA, 0xBC, 0xDE, 0xD2, 0x34];
    let d = PartialTransportStreamDescriptor::parse(&bytes).unwrap();
    assert_eq!(d.peak_rate, 0x01_2345);
    assert_eq!(d.minimum_overall_smoothing_rate, 0x0A_BCDE);
    assert_eq!(d.maximum_overall_smoothing_buffer, 0x1234);
}

#[test]
fn partial_transport_stream_parse_rejects_wrong_tag() {
    let err = PartialTransportStreamDescriptor::parse(&[0x64, 8, 0, 0, 0, 0, 0, 0, 0, 0])
        .unwrap_err();
    assert!(matches!(err, Error::InvalidDescriptor { tag: 0x64, .. }));
}

#[test]
fn partial_transport_stream_parse_rejects_short_buffer() {
    let err = PartialTransportStreamDescriptor::parse(&[TAG]).unwrap_err();
    assert!(matches!(err, Error::BufferTooShort { .. }));
}

#[test]
fn partial_transport_stream_parse_rejects_truncated_body() {
    // length=8 but only 4 payload bytes present.
    let err = PartialTransportStreamDescriptor::parse(&[TAG, 8, 0, 0, 0, 0]).unwrap_err();
    assert!(matches!(err, Error::BufferTooShort { .. }));
}

#[test]
fn partial_transport_stream_parse_rejects_wrong_length() {
    let err =
        PartialTransportStreamDescriptor::parse(&[TAG, 7, 0, 0, 0, 0, 0, 0, 0]).unwrap_err();
    assert!(matches!(err, Error::InvalidDescriptor { .. }));
}

#[test]
fn partial_transport_stream_serialize_round_trip() {
    let d = PartialTransportStreamDescriptor {
        peak_rate: 0x0F_FFFF,
        minimum_overall_smoothing_rate: 0x00_0001,
        maximum_overall_smoothing_buffer: 0x2ABC,
    };
    let mut buf = vec![0u8; d.serialized_len()];
    d.serialize_into(&mut buf).unwrap();
    let re = PartialTransportStreamDescriptor::parse(&buf).unwrap();
    assert_eq!(d, re);
}

#[test]
fn partial_transport_stream_serialize_emits_reserved_ones() {
    let d = PartialTransportStreamDescriptor {
        peak_rate: 0,
        minimum_overall_smoothing_rate: 0,
        maximum_overall_smoothing_buffer: 0,
    };
    let mut buf = vec![0u8; d.serialized_len()];
    d.serialize_into(&mut buf).unwrap();
    // The three reserved-prefixed bytes have their top two bits set.
    assert_eq!(buf[2] & 0xC0, 0xC0);
    assert_eq!(buf[5] & 0xC0, 0xC0);
    assert_eq!(buf[8] & 0xC0, 0xC0);
}

#[test]
fn partial_transport_stream_serialize_rejects_too_small_buffer() {
    let d = PartialTransportStreamDescriptor {
        peak_rate: 1,
        minimum_overall_smoothing_rate: 1,
        maximum_overall_smoothing_buffer: 1,
    };
    let mut tiny = [0u8; 5];
    let err = d.serialize_into(&mut tiny).unwrap_err();
    assert!(matches!(err, Error::OutputBufferTooSmall { .. }));
}

#[test]
fn serialize_rejects_over_range_22bit() {
    let d = PartialTransportStreamDescriptor {
        peak_rate: 1 << 22, // one past 22-bit max
        minimum_overall_smoothing_rate: 0,
        maximum_overall_smoothing_buffer: 0,
    };
    let mut buf = vec![0u8; d.serialized_len()];
    let err = d.serialize_into(&mut buf).unwrap_err();
    assert!(matches!(err, Error::InvalidDescriptor { tag: TAG, .. }));
}

#[test]
fn serialize_rejects_over_range_14bit() {
    let d = PartialTransportStreamDescriptor {
        peak_rate: 0,
        minimum_overall_smoothing_rate: 0,
        maximum_overall_smoothing_buffer: 1 << 14, // one past 14-bit max
    };
    let mut buf = vec![0u8; d.serialized_len()];
    let err = d.serialize_into(&mut buf).unwrap_err();
    assert!(matches!(err, Error::InvalidDescriptor { tag: TAG, .. }));
}

#[test]
fn partial_transport_stream_descriptor_length_matches_payload() {
    let d = PartialTransportStreamDescriptor {
        peak_rate: 0,
        minimum_overall_smoothing_rate: 0,
        maximum_overall_smoothing_buffer: 0,
    };
    assert_eq!(d.descriptor_length(), 8);
}

