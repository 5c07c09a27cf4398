use dvb_si::descriptors::s2_satellite_delivery_system::{S2SatelliteDeliverySystemDescriptor, TAG};
use dvb_si::Error;

#[test]
fn parse_minimal_with_timeslice() {
    let raw = [TAG, 2, 0x2C, 0x07];
    let d = S2SatelliteDeliverySystemDescriptor::parse(&raw).unwrap();
    assert!(!d.scrambling_sequence_selector);
    assert!(!d.multiple_input_stream_flag);
    assert!(!d.not_timeslice_flag);
    assert_eq!(d.ts_gs_mode, 0);
    assert_eq!(d.timeslice_number, Some(0x07));
    assert_eq!(d.scrambling_sequence_index, None);
    assert_eq!(d.input_stream_identifier, None);
}

#[test]
fn parse_not_timeslice_omits_timeslice_number() {
    // not_timeslice_flag (0x10) set + reserved (0x2C) + ts_gs_mode 2 = 0x3E
    let raw = [TAG, 1, 0x3E];
    let d = S2SatelliteDeliverySystemDescriptor::parse(&raw).unwrap();
    assert!(d.not_timeslice_flag);
    assert_eq!(d.ts_gs_mode, 2);
    assert_eq!(d.timeslice_number, None);
}

#[test]
fn parse_extracts_isi_and_timeslice() {
    // flags = MIS(0x40) | reserved(0x2C) = 0x6C; ISI byte, then timeslice byte
    let raw = [TAG, 3, 0x6C, 0x05, 0x09];
    let d = S2SatelliteDeliverySystemDescriptor::parse(&raw).unwrap();
    assert!(d.multiple_input_stream_flag);
    assert_eq!(d.input_stream_identifier, Some(5));
    assert_eq!(d.timeslice_number, Some(9));
}

#[test]
fn parse_extracts_scrambling_index() {
    // flags = scrambling(0x80) | not_timeslice(0x10) | reserved(0x2C) = 0xBC
    let raw = [TAG, 4, 0xBC, 0xFD, 0x23, 0x45];
    let d = S2SatelliteDeliverySystemDescriptor::parse(&raw).unwrap();
    assert!(d.scrambling_sequence_selector);
    assert_eq!(d.scrambling_sequence_index, Some(0x12345));
    assert!(d.not_timeslice_flag);
    assert_eq!(d.timeslice_number, None);
}

#[test]
fn parse_full_18_bit_index() {
    let raw = [TAG, 4, 0xBC, 0xFF, 0xFF, 0xFF];
    let d = S2SatelliteDeliverySystemDescriptor::parse(&raw).unwrap();
    assert_eq!(d.scrambling_sequence_index, Some(0x3FFFF));
}

#[test]
fn s2_satellite_delivery_system_parse_rejects_wrong_tag() {
    let raw = [0x44, 1, 0x3E];
    assert!(matches!(
        S2SatelliteDeliverySystemDescriptor::parse(&raw).unwrap_err(),
        Error::InvalidDescriptor { tag: 0x44, .. }
    ));
}

#[test]
fn parse_rejects_truncated_scrambling() {
    let raw = [TAG, 1, 0x9C]; // scrambling flag set, but no scrambling bytes
    assert!(matches!(
        S2SatelliteDeliverySystemDescriptor::parse(&raw).unwrap_err(),
        Error::BufferTooShort { .. }
    ));
}

#[test]
fn serialize_round_trip_all_fields() {
    let d = S2SatelliteDeliverySystemDescriptor {
        scrambling_sequence_selector: true,
        multiple_input_stream_flag: true,
        not_timeslice_flag: false,
        ts_gs_mode: 2,
        scrambling_sequence_index: Some(0x2BCDE),
        input_stream_identifier: Some(0x42),
        timeslice_number: Some(0x11),
    };
    let mut buf = vec![0u8; d.serialized_len()];
    d.serialize_into(&mut buf).unwrap();
    assert_eq!(S2SatelliteDeliverySystemDescriptor::parse(&buf).unwrap(), d);
}

#[test]
fn serialize_round_trip_not_timeslice() {
    let d = S2SatelliteDeliverySystemDescriptor {
        scrambling_sequence_selector: false,
        multiple_input_stream_flag: false,
        not_timeslice_flag: true,
        ts_gs_mode: 1,
        scrambling_sequence_index: None,
        input_stream_identifier: None,
        timeslice_number: None,
    };
    let mut buf = vec![0u8; d.serialized_len()];
    d.serialize_into(&mut buf).unwrap();
    assert_eq!(S2SatelliteDeliverySystemDescriptor::parse(&buf).unwrap(), d);
}


fn plain(not_timeslice: bool) -> S2SatelliteDeliverySystemDescriptor {
    S2SatelliteDeliverySystemDescriptor {
        scrambling_sequence_selector: false,
        multiple_input_stream_flag: false,
        not_timeslice_flag: not_timeslice,
        ts_gs_mode: 0,
        scrambling_sequence_index: None,
        input_stream_identifier: None,
        timeslice_number: None,
    }
}

#[test]
fn s2_satellite_serialize_exact_bytes() {
    let d = S2SatelliteDeliverySystemDescriptor {
        scrambling_sequence_selector: true,
        multiple_input_stream_flag: true,
        not_timeslice_flag: false,
        ts_gs_mode: 2,
        scrambling_sequence_index: Some(0x2BCDE),
        input_stream_identifier: Some(0x42),
        timeslice_number: Some(0x11),
    };
    let mut buf = vec![0u8; d.serialized_len()];
    assert_eq!(d.serialize_into(&mut buf).unwrap(), 8);
    assert_eq!(buf, vec![TAG, 6, 0x80 | 0x40 | 0x0C | 2, 0xFE, 0xBC, 0xDE, 0x42, 0x11]);
    assert_eq!(d.descriptor_length(), 6);
}

#[test]
fn s2_satellite_serialize_masks_index_and_defaults_absent_fields() {
    let d = S2SatelliteDeliverySystemDescriptor {
        scrambling_sequence_selector: true,
        multiple_input_stream_flag: true,
        not_timeslice_flag: false,
        ts_gs_mode: 7,
        scrambling_sequence_index: Some(0x7_0001),
        input_stream_identifier: None,
        timeslice_number: None,
    };
    let mut buf = vec![0u8; d.serialized_len()];
    d.serialize_into(&mut buf).unwrap();
    assert_eq!(buf, vec![TAG, 6, 0x80 | 0x40 | 0x0C | 3, 0xFF, 0x00, 0x01, 0x00, 0x00]);
}

#[test]
fn s2_satellite_serialize_rejects_small_buffer() {
    let d = plain(false);
    let mut buf = [0x55u8; 3];
    assert!(matches!(
        d.serialize_into(&mut buf).unwrap_err(),
        Error::OutputBufferTooSmall { need: 4, have: 3 }
    ));
    assert_eq!(buf, [0x55; 3]);
}

#[test]
fn s2_satellite_parse_rejects_short_header() {
    assert!(matches!(
        S2SatelliteDeliverySystemDescriptor::parse(&[TAG, 1]).unwrap_err(),
        Error::BufferTooShort { need: 3, have: 2, .. }
    ));
}

#[test]
fn s2_satellite_parse_rejects_truncated_body() {
    assert!(matches!(
        S2SatelliteDeliverySystemDescriptor::parse(&[TAG, 3, 0x3C]).unwrap_err(),
        Error::BufferTooShort { need: 5, have: 3, .. }
    ));
}

#[test]
fn s2_satellite_parse_rejects_zero_length() {
    assert!(matches!(
        S2SatelliteDeliverySystemDescriptor::parse(&[TAG, 0, 0x3C]).unwrap_err(),
        Error::InvalidDescriptor { tag: TAG, .. }
    ));
}

#[test]
fn s2_satellite_parse_reports_field_offsets() {
    assert!(matches!(
        S2SatelliteDeliverySystemDescriptor::parse(&[TAG, 1, 0x9C]).unwrap_err(),
        Error::BufferTooShort { need: 4, have: 1, .. }
    ));
    assert!(matches!(
        S2SatelliteDeliverySystemDescriptor::parse(&[TAG, 4, 0xDC, 0xFC, 0, 0]).unwrap_err(),
        Error::BufferTooShort { need: 5, have: 4, .. }
    ));
    assert!(matches!(
        S2SatelliteDeliverySystemDescriptor::parse(&[TAG, 2, 0x4C, 0x07]).unwrap_err(),
        Error::BufferTooShort { need: 3, have: 2, .. }
    ));
}

#[test]
fn s2_satellite_parse_ignores_trailing_bytes() {
    let d = S2SatelliteDeliverySystemDescriptor::parse(&[TAG, 3, 0x1D, 0xAA, 0xBB]).unwrap();
    assert_eq!(d, S2SatelliteDeliverySystemDescriptor { ts_gs_mode: 1, ..plain(true) });
}

#[test]
fn s2_satellite_canonical_bytes_round_trip() {
    let raw = [TAG, 6, 0xCC, 0xFD, 0x23, 0x45, 0x77, 0x01];
    let d = S2SatelliteDeliverySystemDescriptor::parse(&raw).unwrap();
    let mut buf = vec![0u8; d.serialized_len()];
    d.serialize_into(&mut buf).unwrap();
    assert_eq!(buf, raw.to_vec());
}
