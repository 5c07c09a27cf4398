use dvb_si::descriptors::frequency_list::{CodingType, FrequencyListDescriptor, TAG};
use dvb_si::Error;

#[test]
fn parse_empty_entries_is_valid() {
    let raw: Vec<u8> = vec![TAG, 0x01, 0xFC];
    let desc = FrequencyListDescriptor::parse(&raw).unwrap();
    assert!(desc.centre_frequencies_bcd.is_empty());
    assert!(matches!(desc.coding_type, CodingType::Undefined));
}

#[test]
fn parse_extracts_coding_type_satellite() {
    let raw: Vec<u8> = vec![TAG, 0x01, 0xFD];
    let desc = FrequencyListDescriptor::parse(&raw).unwrap();
    assert!(matches!(desc.coding_type, CodingType::Satellite));
}

#[test]
fn parse_extracts_coding_type_cable() {
    let raw: Vec<u8> = vec![TAG, 0x01, 0xFE];
    let desc = FrequencyListDescriptor::parse(&raw).unwrap();
    assert!(matches!(desc.coding_type, CodingType::Cable));
}

#[test]
fn parse_extracts_coding_type_terrestrial() {
    let raw: Vec<u8> = vec![TAG, 0x01, 0xFF];
    let desc = FrequencyListDescriptor::parse(&raw).unwrap();
    assert!(matches!(desc.coding_type, CodingType::Terrestrial));
}

#[test]
fn parse_extracts_multiple_frequency_entries() {
    let raw: Vec<u8> = vec![
        TAG, 0x09, // body length = 9 (1 coding byte + 2 entries × 4)
        0xFD, // satellite
        0x00, 0x30, 0x12, 0x34, // BCD 00301234 → 3_012_340 kHz = 30_123_400_000 Hz
        0x00, 0x30, 0x00, 0x00, // BCD 00300000 → 3_000_000 kHz = 30_000_000_000 Hz
    ];
    let desc = FrequencyListDescriptor::parse(&raw).unwrap();
    assert_eq!(desc.centre_frequencies_bcd.len(), 2);
    assert_eq!(desc.centre_frequencies_bcd[0], [0x00, 0x30, 0x12, 0x34]);
    assert_eq!(desc.centre_frequencies_bcd[1], [0x00, 0x30, 0x00, 0x00]);
}

#[test]
fn frequency_list_parse_rejects_wrong_tag() {
    let raw: Vec<u8> = vec![0x63, 0x01, 0xFC];
    let err = FrequencyListDescriptor::parse(&raw).unwrap_err();
    assert!(
        matches!(err, Error::InvalidDescriptor { tag: 0x63, .. }),
        "expected InvalidDescriptor(tag=0x63), got {err:?}"
    );
}

#[test]
fn frequency_list_parse_ignores_reserved_bits() {
    // coding byte 0x03: top 6 reserved bits = 0, coding_type = 0b11 (terrestrial).
    let raw: Vec<u8> = vec![TAG, 0x01, 0x03];
    let d = FrequencyListDescriptor::parse(&raw).unwrap();
    assert_eq!(d.coding_type, CodingType::Terrestrial);
    assert!(d.centre_frequencies_bcd.is_empty());
}

#[test]
fn parse_rejects_length_not_1_plus_multiple_of_4() {
    let raw: Vec<u8> = vec![TAG, 0x03, 0xFC, 0x01, 0x02]; // body=3, need 1+4K
    let err = FrequencyListDescriptor::parse(&raw).unwrap_err();
    assert!(matches!(err, Error::InvalidDescriptor { .. }));
}

#[test]
fn frequency_list_parse_rejects_truncated_buffer() {
    let raw: &[u8] = &[TAG];
    let err = FrequencyListDescriptor::parse(raw).unwrap_err();
    assert!(matches!(err, Error::BufferTooShort { need: 2, .. }));
}

#[test]
fn serialize_round_trip_empty() {
    let desc = FrequencyListDescriptor {
        coding_type: CodingType::Satellite,
        centre_frequencies_bcd: vec![],
    };
    let raw: Vec<u8> = vec![TAG, 0x01, 0xFD];
    let mut buf = vec![0u8; desc.serialized_len()];
    let written = desc.serialize_into(&mut buf).unwrap();
    assert_eq!(written, raw.len());
    assert_eq!(buf, raw);

    let reparsed = FrequencyListDescriptor::parse(&buf).unwrap();
    assert_eq!(desc.coding_type, reparsed.coding_type);
    assert_eq!(desc.centre_frequencies_bcd, reparsed.centre_frequencies_bcd);
}

#[test]
fn serialize_round_trip_many_entries() {
    let desc = FrequencyListDescriptor {
        coding_type: CodingType::Cable,
        centre_frequencies_bcd: vec![
            [0x03, 0x46, 0x00, 0x00],
            [0x04, 0x74, 0x00, 0x10],
            [0x01, 0x15, 0x50, 0x00],
            [0x04, 0x90, 0x25, 0x00],
        ],
    };
    let mut buf = vec![0u8; desc.serialized_len()];
    desc.serialize_into(&mut buf).unwrap();
    let reparsed = FrequencyListDescriptor::parse(&buf).unwrap();
    assert_eq!(desc.coding_type, reparsed.coding_type);
    assert_eq!(desc.centre_frequencies_bcd, reparsed.centre_frequencies_bcd);
}


#[test]
fn frequency_list_serialize_exact_bytes() {
    let d = FrequencyListDescriptor {
        coding_type: CodingType::Terrestrial,
        centre_frequencies_bcd: vec![[0x04, 0xA8, 0x58, 0xF0], [0x01, 0x02, 0x03, 0x04]],
    };
    let mut buf = vec![0u8; d.serialized_len()];
    assert_eq!(d.serialize_into(&mut buf).unwrap(), 11);
    assert_eq!(buf, vec![TAG, 9, 0xFF, 0x04, 0xA8, 0x58, 0xF0, 0x01, 0x02, 0x03, 0x04]);
}

#[test]
fn frequency_list_serialize_rejects_small_buffer() {
    let d = FrequencyListDescriptor { coding_type: CodingType::Cable, centre_frequencies_bcd: vec![[0; 4]] };
    let mut buf = [0x11u8; 6];
    assert!(matches!(
        d.serialize_into(&mut buf).unwrap_err(),
        Error::OutputBufferTooSmall { need: 7, have: 6 }
    ));
    assert_eq!(buf, [0x11; 6]);
}

#[test]
fn frequency_list_parse_rejects_empty_body() {
    assert!(matches!(
        FrequencyListDescriptor::parse(&[TAG, 0]).unwrap_err(),
        Error::InvalidDescriptor { tag: TAG, .. }
    ));
}

#[test]
fn frequency_list_parse_rejects_truncated_body() {
    assert!(matches!(
        FrequencyListDescriptor::parse(&[TAG, 5, 0xFD, 0x00]).unwrap_err(),
        Error::BufferTooShort { need: 7, have: 4, .. }
    ));
}

#[test]
fn frequency_list_invalid_bcd_decodes_to_none() {
    let d = FrequencyListDescriptor {
        coding_type: CodingType::Satellite,
        centre_frequencies_bcd: vec![[0x01, 0x1A, 0x00, 0x00], [0x00, 0x00, 0x00, 0x01]],
    };
    assert_eq!(d.centre_frequencies_hz(), vec![None, Some(10_000)]);
}

#[test]
fn frequency_list_undefined_decodes_to_none() {
    let d = FrequencyListDescriptor { coding_type: CodingType::Undefined, centre_frequencies_bcd: vec![[0; 4]] };
    assert_eq!(d.centre_frequencies_hz(), vec![None]);
}

#[test]
fn frequency_list_set_rejects_undefined() {
    let mut d = FrequencyListDescriptor { coding_type: CodingType::Undefined, centre_frequencies_bcd: vec![[1; 4]] };
    assert!(matches!(d.set_centre_frequencies_hz(&[100]).unwrap_err(), Error::ValueOutOfRange { .. }));
    assert_eq!(d.centre_frequencies_bcd, vec![[1; 4]]);
}

#[test]
fn frequency_list_set_rejects_out_of_range_and_keeps_entries() {
    let mut d = FrequencyListDescriptor { coding_type: CodingType::Satellite, centre_frequencies_bcd: vec![[2; 4]] };
    assert!(matches!(
        d.set_centre_frequencies_hz(&[10_000, 1_000_000_000_000]).unwrap_err(),
        Error::ValueOutOfRange { .. }
    ));
    assert_eq!(d.centre_frequencies_bcd, vec![[2; 4]]);
    let mut t = FrequencyListDescriptor { coding_type: CodingType::Terrestrial, centre_frequencies_bcd: vec![] };
    assert!(matches!(t.set_centre_frequencies_hz(&[42_949_672_960]).unwrap_err(), Error::ValueOutOfRange { .. }));
    assert!(t.set_centre_frequencies_hz(&[42_949_672_950]).is_ok());
    assert_eq!(t.centre_frequencies_bcd, vec![[0xFF, 0xFF, 0xFF, 0xFF]]);
}

#[test]
fn frequency_list_set_truncates_to_resolution() {
    let mut d = FrequencyListDescriptor { coding_type: CodingType::Cable, centre_frequencies_bcd: vec![] };
    d.set_centre_frequencies_hz(&[346_000_099, 123]).unwrap();
    assert_eq!(d.centre_frequencies_bcd, vec![[0x03, 0x46, 0x00, 0x00], [0x00, 0x00, 0x00, 0x01]]);
    assert_eq!(d.centre_frequencies_hz(), vec![Some(346_000_000), Some(100)]);
}

#[test]
fn satellite_frequency_hz_decodes_correctly() {
    let desc = FrequencyListDescriptor {
        coding_type: CodingType::Satellite,
        centre_frequencies_bcd: vec![[0x01, 0x17, 0x25, 0x00]], // 11.72500 GHz
    };
    assert_eq!(desc.centre_frequencies_hz(), vec![Some(11_725_000_000)]);
}


#[test]
fn cable_frequency_hz_decodes_correctly() {
    let desc = FrequencyListDescriptor {
        coding_type: CodingType::Cable,
        centre_frequencies_bcd: vec![[0x03, 0x46, 0x00, 0x00]], // 346.0000 MHz
    };
    assert_eq!(desc.centre_frequencies_hz(), vec![Some(346_000_000)]);
}


#[test]
fn terrestrial_frequency_hz_decodes_binary() {
    let desc = FrequencyListDescriptor {
        coding_type: CodingType::Terrestrial,
        // binary 0x04A858F0 = 78_141_680 × 10 Hz = 781_416_800 Hz
        centre_frequencies_bcd: vec![[0x04, 0xA8, 0x58, 0xF0]],
    };
    assert_eq!(desc.centre_frequencies_hz(), vec![Some(781_416_800)]);
}


#[test]
fn set_satellite_frequencies_hz_round_trips() {
    let mut desc = FrequencyListDescriptor {
        coding_type: CodingType::Satellite,
        centre_frequencies_bcd: vec![],
    };
    desc.set_centre_frequencies_hz(&[11_725_000_000]).unwrap();
    assert_eq!(desc.centre_frequencies_hz(), vec![Some(11_725_000_000)]);
    assert_eq!(desc.centre_frequencies_bcd[0], [0x01, 0x17, 0x25, 0x00]);
}


#[test]
fn set_terrestrial_frequencies_hz_round_trips() {
    let mut desc = FrequencyListDescriptor {
        coding_type: CodingType::Terrestrial,
        centre_frequencies_bcd: vec![],
    };
    desc.set_centre_frequencies_hz(&[781_416_800]).unwrap();
    assert_eq!(desc.centre_frequencies_hz(), vec![Some(781_416_800)]);
    assert_eq!(desc.centre_frequencies_bcd[0], [0x04, 0xA8, 0x58, 0xF0]);
}


#[test]
fn set_cable_frequencies_hz_round_trips() {
    let mut desc = FrequencyListDescriptor {
        coding_type: CodingType::Cable,
        centre_frequencies_bcd: vec![],
    };
    desc.set_centre_frequencies_hz(&[346_000_000]).unwrap();
    assert_eq!(desc.centre_frequencies_hz(), vec![Some(346_000_000)]);
}

