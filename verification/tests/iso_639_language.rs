use dvb_si::descriptors::iso_639_language::{AudioType, Iso639LanguageDescriptor, LanguageEntry, TAG};
use dvb_si::text::LangCode;
use dvb_si::Error;

#[test]
fn parse_single_language_entry() {
    let bytes = [TAG, 4, b'e', b'n', b'g', 0x00];
    let d = Iso639LanguageDescriptor::parse(&bytes).unwrap();
    assert_eq!(d.entries.len(), 1);
    assert_eq!(d.entries[0].language_code, LangCode(*b"eng"));
    assert_eq!(d.entries[0].audio_type, AudioType::Undefined);
}

#[test]
fn iso_639_language_parse_multiple_entries() {
    let bytes = [TAG, 8, b'e', b'n', b'g', 1, b'f', b'r', b'a', 2];
    let d = Iso639LanguageDescriptor::parse(&bytes).unwrap();
    assert_eq!(d.entries.len(), 2);
    assert_eq!(d.entries[1].language_code, LangCode(*b"fra"));
    assert_eq!(d.entries[1].audio_type, AudioType::HearingImpaired);
}

#[test]
fn iso_639_language_parse_rejects_wrong_tag() {
    let err = Iso639LanguageDescriptor::parse(&[0x0B, 0]).unwrap_err();
    assert!(matches!(err, Error::InvalidDescriptor { tag: 0x0B, .. }));
}

#[test]
fn iso_639_language_parse_rejects_short_header() {
    let err = Iso639LanguageDescriptor::parse(&[TAG]).unwrap_err();
    assert!(matches!(err, Error::BufferTooShort { .. }));
}

#[test]
fn iso_639_language_parse_rejects_length_not_multiple_of_4() {
    let bytes = [TAG, 5, b'e', b'n', b'g', 0, 0];
    let err = Iso639LanguageDescriptor::parse(&bytes).unwrap_err();
    assert!(matches!(err, Error::InvalidDescriptor { .. }));
}

#[test]
fn iso_639_language_serialize_round_trip() {
    let d = Iso639LanguageDescriptor {
        entries: vec![
            LanguageEntry {
                language_code: LangCode(*b"eng"),
                audio_type: AudioType::Undefined,
            },
            LanguageEntry {
                language_code: LangCode(*b"fra"),
                audio_type: AudioType::CleanEffects,
            },
        ],
    };
    let mut buf = vec![0u8; d.serialized_len()];
    d.serialize_into(&mut buf).unwrap();
    let re = Iso639LanguageDescriptor::parse(&buf).unwrap();
    assert_eq!(d, re);
}

#[test]
fn iso_639_language_descriptor_length_matches_payload() {
    let d = Iso639LanguageDescriptor {
        entries: vec![LanguageEntry {
            language_code: LangCode(*b"eng"),
            audio_type: AudioType::Undefined,
        }],
    };
    assert_eq!(d.serialized_len() - 2, 4);
}

#[test]
fn audio_type_full_range_round_trip() {
    for b in 0..=0xFF_u8 {
        let at = AudioType::from_u8(b);
        assert_eq!(at.to_u8(), b, "round-trip failed for byte 0x{b:02X}");
    }
}

#[test]
fn audio_type_name_for_known() {
    assert_eq!(AudioType::Undefined.name(), "undefined");
    assert_eq!(AudioType::CleanEffects.name(), "clean effects");
    assert_eq!(AudioType::HearingImpaired.name(), "hearing impaired");
    assert_eq!(
        AudioType::VisualImpairedCommentary.name(),
        "visual impaired commentary"
    );
    assert_eq!(AudioType::Reserved(0x55).name(), "reserved");
}

#[test]
fn audio_type_round_trip_known_values() {
    for b in [0x00u8, 0x03, 0x40, 0x80, 0x84, 0x85, 0xFF] {
        assert_eq!(
            AudioType::from_u8(b).to_u8(),
            b,
            "round-trip failed for byte 0x{b:02X}"
        );
    }
}

#[test]
fn audio_type_primary_name() {
    assert_eq!(AudioType::from_u8(0x80).name(), "primary");
}

