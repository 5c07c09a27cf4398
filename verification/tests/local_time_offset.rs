use dvb_si::descriptors::local_time_offset::{encode_offsets, LocalTimeOffsetDescriptor, LocalTimeOffsetEntry, TAG};
use dvb_si::text::LangCode;
use dvb_si::Error;

#[test]
fn local_time_offset_parse_single_entry() {
    let bytes = [
        TAG, 13, 0x46, 0x52, 0x41, 0x02, 0x01, 0x00, 0xAB, 0xCD, 0xEF, 0x12, 0x34, 0x02, 0x00,
    ];
    let d = LocalTimeOffsetDescriptor::parse(&bytes).unwrap();
    assert_eq!(d.entries.len(), 1);
    assert_eq!(d.entries[0].country_code, LangCode([0x46, 0x52, 0x41]));
    assert_eq!(d.entries[0].country_region_id, 0);
    assert!(!d.entries[0].local_time_offset_negative);
    assert_eq!(d.entries[0].local_time_offset_bcd, 0x0100);
    assert_eq!(
        d.entries[0].time_of_change_raw(),
        [0xAB, 0xCD, 0xEF, 0x12, 0x34]
    );
    assert_eq!(d.entries[0].next_time_offset_bcd, 0x0200);
}

#[test]
fn time_of_change_parts_decoded() {
    let bytes = [
        TAG, 13, 0x46, 0x52, 0x41, 0x02, 0x01, 0x00, 0xAB, 0xCD, 0xEF, 0x12, 0x34, 0x02, 0x00,
    ];
    let d = LocalTimeOffsetDescriptor::parse(&bytes).unwrap();
    let (mjd, h, m, s) = d.entries[0].time_of_change_parts();
    assert_eq!(mjd, 0xABCD);
    assert_eq!(h, None);
    assert_eq!(m, Some(12));
    assert_eq!(s, Some(34));
}

#[test]
fn time_of_change_parts_valid_bcd() {
    let entry = LocalTimeOffsetEntry {
        country_code: LangCode([0x47, 0x42, 0x52]),
        country_region_id: 0,
        local_time_offset_negative: false,
        local_time_offset_bcd: 0x0000,
        time_of_change_raw: [0xC0, 0x3E, 0x12, 0x30, 0x00],
        next_time_offset_bcd: 0x0100,
    };
    let (mjd, h, m, s) = entry.time_of_change_parts();
    assert_eq!(mjd, 0xC03E);
    assert_eq!(h, Some(12));
    assert_eq!(m, Some(30));
    assert_eq!(s, Some(0));
}

#[test]
fn local_time_offset_parse_multiple_entries_preserves_order() {
    let bytes = [
        TAG, 26, 0x46, 0x52, 0x41, 0x02, 0x01, 0x00, 0xAB, 0xCD, 0xEF, 0x12, 0x34, 0x02, 0x00,
        0x47, 0x42, 0x52, 0x06, 0x00, 0x00, 0x11, 0x22, 0x33, 0x44, 0x55, 0x01, 0x00,
    ];
    let d = LocalTimeOffsetDescriptor::parse(&bytes).unwrap();
    assert_eq!(d.entries.len(), 2);
    assert_eq!(d.entries[0].country_code, LangCode([0x46, 0x52, 0x41]));
    assert_eq!(d.entries[1].country_code, LangCode([0x47, 0x42, 0x52]));
}

#[test]
fn parse_extracts_polarity_negative() {
    let bytes = [
        TAG, 13, 0x46, 0x52, 0x41, 0x03, 0x01, 0x00, 0xAB, 0xCD, 0xEF, 0x12, 0x34, 0x02, 0x00,
    ];
    let d = LocalTimeOffsetDescriptor::parse(&bytes).unwrap();
    assert!(d.entries[0].local_time_offset_negative);
}

#[test]
fn parse_extracts_country_region_id() {
    let bytes = [
        TAG, 13, 0x46, 0x52, 0x41, 0x1A, 0x01, 0x00, 0xAB, 0xCD, 0xEF, 0x12, 0x34, 0x02, 0x00,
    ];
    let d = LocalTimeOffsetDescriptor::parse(&bytes).unwrap();
    assert_eq!(d.entries[0].country_region_id, 6);
}

#[test]
fn local_time_offset_parse_rejects_wrong_tag() {
    let err = LocalTimeOffsetDescriptor::parse(&[
        0x59, 13, 0x46, 0x52, 0x41, 0x02, 0x01, 0x00, 0xAB, 0xCD, 0xEF, 0x12, 0x34, 0x02, 0x00,
    ])
    .unwrap_err();
    assert!(matches!(err, Error::InvalidDescriptor { tag: 0x59, .. }));
}

#[test]
fn parse_rejects_length_not_multiple_of_13() {
    let bytes = [
        TAG, 14, 0x46, 0x52, 0x41, 0x02, 0x01, 0x00, 0xAB, 0xCD, 0xEF, 0x12, 0x34, 0x02, 0x00,
        0xFF,
    ];
    let err = LocalTimeOffsetDescriptor::parse(&bytes).unwrap_err();
    assert!(matches!(err, Error::InvalidDescriptor { tag: TAG, .. }));
}

#[test]
fn parse_ignores_reserved_bit_not_set() {
    let bytes = [
        TAG, 13, 0x46, 0x52, 0x41, 0x00, 0x01, 0x00, 0xAB, 0xCD, 0xEF, 0x12, 0x34, 0x02, 0x00,
    ];
    let d = LocalTimeOffsetDescriptor::parse(&bytes).unwrap();
    assert_eq!(d.entries.len(), 1);
    assert!(!d.entries[0].local_time_offset_negative);
}

#[test]
fn local_time_offset_serialize_round_trip() {
    let e = LocalTimeOffsetEntry {
        country_code: LangCode([0x46, 0x52, 0x41]),
        country_region_id: 0,
        local_time_offset_negative: false,
        local_time_offset_bcd: 0x0100,
        time_of_change_raw: [0xAB, 0xCD, 0xEF, 0x12, 0x34],
        next_time_offset_bcd: 0x0200,
    };
    let d = LocalTimeOffsetDescriptor { entries: vec![e] };
    let mut buf = vec![0u8; d.serialized_len()];
    d.serialize_into(&mut buf).unwrap();
    let re = LocalTimeOffsetDescriptor::parse(&buf).unwrap();
    assert_eq!(d, re);
}

#[test]
fn set_time_of_change_raw_updates_field() {
    let mut e = LocalTimeOffsetEntry {
        country_code: LangCode([0x46, 0x52, 0x41]),
        country_region_id: 0,
        local_time_offset_negative: false,
        local_time_offset_bcd: 0x0100,
        time_of_change_raw: [0; 5],
        next_time_offset_bcd: 0x0200,
    };
    e.set_time_of_change_raw([0xAB, 0xCD, 0xEF, 0x12, 0x34]);
    assert_eq!(e.time_of_change_raw(), [0xAB, 0xCD, 0xEF, 0x12, 0x34]);
}

#[test]
fn local_time_offset_empty_descriptor_valid() {
    let bytes = [TAG, 0];
    let d = LocalTimeOffsetDescriptor::parse(&bytes).unwrap();
    assert!(d.entries.is_empty());
}


fn entry(region: u8, negative: bool) -> LocalTimeOffsetEntry {
    LocalTimeOffsetEntry::new(LangCode(*b"DEU"), region, negative, 0x0100, [0xC0, 0x3E, 0x02, 0x00, 0x00], 0x0200)
}

#[test]
fn local_time_offset_serialize_exact_bytes() {
    let d = LocalTimeOffsetDescriptor { entries: vec![entry(5, true)] };
    let mut buf = vec![0u8; d.serialized_len()];
    assert_eq!(d.serialize_into(&mut buf).unwrap(), 15);
    assert_eq!(
        buf,
        vec![TAG, 13, b'D', b'E', b'U', (5 << 2) | 0x02 | 0x01, 0x01, 0x00, 0xC0, 0x3E, 0x02, 0x00, 0x00, 0x02, 0x00]
    );
}

#[test]
fn local_time_offset_serialize_rejects_small_buffer() {
    let d = LocalTimeOffsetDescriptor { entries: vec![entry(0, false)] };
    let mut buf = [0u8; 14];
    assert!(matches!(
        d.serialize_into(&mut buf).unwrap_err(),
        Error::OutputBufferTooSmall { need: 15, have: 14 }
    ));
    assert_eq!(buf, [0u8; 14]);
}

#[test]
fn local_time_offset_parse_rejects_truncated_body() {
    assert!(matches!(
        LocalTimeOffsetDescriptor::parse(&[TAG, 13, 0x44]).unwrap_err(),
        Error::BufferTooShort { need: 15, have: 3, .. }
    ));
}

#[test]
fn local_time_offset_time_of_change_parts_mjd() {
    let e = entry(0, false);
    assert_eq!(e.time_of_change_parts(), (0xC03E, Some(2), Some(0), Some(0)));
    assert_eq!(e.time_of_change_raw(), [0xC0, 0x3E, 0x02, 0x00, 0x00]);
}

#[test]
fn local_time_offset_decodes_to_signed_minutes() {
    let mut e = entry(0, false);
    e.local_time_offset_bcd = 0x0130;
    e.next_time_offset_bcd = 0x0230;
    assert_eq!(e.local_time_offset(), Some(chrono::TimeDelta::minutes(90)));
    assert_eq!(e.next_time_offset(), Some(chrono::TimeDelta::minutes(150)));
    e.local_time_offset_negative = true;
    assert_eq!(e.local_time_offset(), Some(chrono::TimeDelta::minutes(-90)));
    e.local_time_offset_bcd = 0x01A0;
    assert_eq!(e.local_time_offset(), None);
}

#[test]
fn local_time_offset_set_offsets_writes_bcd_and_polarity() {
    let mut e = entry(3, false);
    e.set_offsets(chrono::TimeDelta::minutes(-330), chrono::TimeDelta::minutes(-270)).unwrap();
    assert!(e.local_time_offset_negative);
    assert_eq!(e.local_time_offset_bcd, 0x0530);
    assert_eq!(e.next_time_offset_bcd, 0x0430);
    assert_eq!(e.country_region_id, 3);
    assert_eq!(e.local_time_offset(), Some(chrono::TimeDelta::minutes(-330)));
}

#[test]
fn local_time_offset_set_offsets_zero_matches_either_sign() {
    let mut e = entry(0, false);
    e.set_offsets(chrono::TimeDelta::zero(), chrono::TimeDelta::minutes(-60)).unwrap();
    assert!(e.local_time_offset_negative);
    assert_eq!(e.local_time_offset_bcd, 0x0000);
    assert_eq!(e.next_time_offset_bcd, 0x0100);
}

#[test]
fn local_time_offset_set_offsets_rejects_mixed_signs_and_large() {
    let mut e = entry(0, false);
    let before = e;
    assert!(matches!(
        e.set_offsets(chrono::TimeDelta::minutes(60), chrono::TimeDelta::minutes(-60)).unwrap_err(),
        Error::ValueOutOfRange { .. }
    ));
    assert!(matches!(
        e.set_offsets(chrono::TimeDelta::minutes(6000), chrono::TimeDelta::minutes(60)).unwrap_err(),
        Error::ValueOutOfRange { .. }
    ));
    assert_eq!(e, before);
}

#[test]
fn local_time_offset_encode_offsets_parts() {
    assert_eq!(encode_offsets((false, false, 61), (false, true, 0)).unwrap(), (false, 0x0101, 0x0000));
    assert_eq!(encode_offsets((true, false, -5999), (true, false, -1)).unwrap(), (true, 0x9959, 0x0001));
    assert!(encode_offsets((false, false, 6000), (false, false, 0)).is_err());
}

#[test]
fn local_time_offset_set_then_read_back_same_spans() {
    for (l, n) in [(-330i64, -270i64), (0, -60), (90, 0), (0, 0), (5999, 1)] {
        let mut e = entry(1, false);
        e.set_offsets(chrono::TimeDelta::minutes(l), chrono::TimeDelta::minutes(n)).unwrap();
        assert_eq!(e.local_time_offset(), Some(chrono::TimeDelta::minutes(l)));
        assert_eq!(e.next_time_offset(), Some(chrono::TimeDelta::minutes(n)));
    }
}
