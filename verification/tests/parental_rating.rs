use dvb_si::descriptors::parental_rating::{ParentalRatingDescriptor, RatingEntry, TAG};
use dvb_si::text::LangCode;
use dvb_si::Error;

#[test]
fn parse_single_entry_extracts_country_and_rating() {
    let bytes = [TAG, 4, b'F', b'R', b'A', 0x05];
    let d = ParentalRatingDescriptor::parse(&bytes).unwrap();
    assert_eq!(d.entries.len(), 1);
    assert_eq!(d.entries[0].country_code, LangCode(*b"FRA"));
    assert_eq!(d.entries[0].rating, 0x05);
}

#[test]
fn parental_rating_parse_multiple_entries_preserves_order() {
    let bytes = [TAG, 8, b'G', b'B', b'R', 0x01, b'U', b'S', b'A', 0x10];
    let d = ParentalRatingDescriptor::parse(&bytes).unwrap();
    assert_eq!(d.entries.len(), 2);
    assert_eq!(d.entries[0].country_code, LangCode(*b"GBR"));
    assert_eq!(d.entries[0].rating, 0x01);
    assert_eq!(d.entries[1].country_code, LangCode(*b"USA"));
    assert_eq!(d.entries[1].rating, 0x10);
}

#[test]
fn parental_rating_parse_rejects_wrong_tag() {
    let err = ParentalRatingDescriptor::parse(&[0x4E, 0]).unwrap_err();
    assert!(matches!(err, Error::InvalidDescriptor { tag: 0x4E, .. }));
}

#[test]
fn parental_rating_parse_rejects_length_not_multiple_of_4() {
    let bytes = [TAG, 3, b'F', b'R', b'A'];
    let err = ParentalRatingDescriptor::parse(&bytes).unwrap_err();
    assert!(matches!(err, Error::InvalidDescriptor { .. }));
}

#[test]
fn parental_rating_parse_rejects_truncated_body() {
    let bytes = [TAG, 4, b'F', b'R'];
    let err = ParentalRatingDescriptor::parse(&bytes).unwrap_err();
    assert!(matches!(err, Error::BufferTooShort { .. }));
}

#[test]
fn minimum_age_maps_0x01_to_4_years() {
    let entry = RatingEntry {
        country_code: LangCode(*b"FRA"),
        rating: 0x01,
    };
    assert_eq!(entry.minimum_age(), Some(4));
}

#[test]
fn minimum_age_returns_none_for_rating_0x00() {
    let entry = RatingEntry {
        country_code: LangCode(*b"USA"),
        rating: 0x00,
    };
    assert!(entry.minimum_age().is_none());
}

#[test]
fn minimum_age_returns_none_for_rating_0x10_and_above() {
    let entry = RatingEntry {
        country_code: LangCode(*b"GBR"),
        rating: 0x10,
    };
    assert!(entry.minimum_age().is_none());
    let entry2 = RatingEntry {
        country_code: LangCode(*b"JPN"),
        rating: 0xFF,
    };
    assert!(entry2.minimum_age().is_none());
}

#[test]
fn parental_rating_serialize_round_trip() {
    let d = ParentalRatingDescriptor {
        entries: vec![
            RatingEntry {
                country_code: LangCode(*b"FRA"),
                rating: 0x05,
            },
            RatingEntry {
                country_code: LangCode(*b"GBR"),
                rating: 0x01,
            },
        ],
    };
    let mut buf = vec![0u8; d.serialized_len()];
    d.serialize_into(&mut buf).unwrap();
    let re = ParentalRatingDescriptor::parse(&buf).unwrap();
    assert_eq!(d, re);
}

