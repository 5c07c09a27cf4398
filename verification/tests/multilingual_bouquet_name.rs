use dvb_si::descriptors::multilingual_bouquet_name::{BouquetNameEntry, MultilingualBouquetNameDescriptor, TAG};
use dvb_si::text::{DvbText, LangCode};
use dvb_si::Error;

const HEADER_LEN: usize = 2;
const LANG_LEN: usize = 3;

/// Builds a descriptor from (language, name) pairs.
fn build(entries: &[([u8; 3], &[u8])]) -> Vec<u8> {
    let body: usize = entries.iter().map(|(_, n)| LANG_LEN + 1 + n.len()).sum();
    let mut v = Vec::with_capacity(HEADER_LEN + body);
    v.push(TAG);
    v.push(body as u8);
    for (lang, name) in entries {
        v.extend_from_slice(lang);
        v.push(name.len() as u8);
        v.extend_from_slice(name);
    }
    v
}

#[test]
fn multilingual_bouquet_name_parse_single_entry() {
    let bytes = build(&[(*b"eng", b"Sky")]);
    let d = MultilingualBouquetNameDescriptor::parse(&bytes).unwrap();
    assert_eq!(d.entries.len(), 1);
    assert_eq!(d.entries[0].language_code, LangCode(*b"eng"));
    assert_eq!(d.entries[0].bouquet_name.raw(), b"Sky");
}

#[test]
fn multilingual_bouquet_name_parse_multiple_entries() {
    let bytes = build(&[(*b"eng", b"Pack"), (*b"fra", b"Bouquet")]);
    let d = MultilingualBouquetNameDescriptor::parse(&bytes).unwrap();
    assert_eq!(d.entries.len(), 2);
    assert_eq!(d.entries[1].bouquet_name.raw(), b"Bouquet");
}

#[test]
fn multilingual_bouquet_name_parse_rejects_wrong_tag() {
    let err = MultilingualBouquetNameDescriptor::parse(&[0x5B, 0]).unwrap_err();
    assert!(matches!(err, Error::InvalidDescriptor { tag: 0x5B, .. }));
}

#[test]
fn multilingual_bouquet_name_parse_rejects_short_buffer() {
    let err = MultilingualBouquetNameDescriptor::parse(&[TAG]).unwrap_err();
    assert!(matches!(err, Error::BufferTooShort { .. }));
}

#[test]
fn parse_rejects_name_length_overrun() {
    let bytes = [TAG, 5, b'e', b'n', b'g', 100, 0];
    let err = MultilingualBouquetNameDescriptor::parse(&bytes).unwrap_err();
    assert!(matches!(err, Error::InvalidDescriptor { .. }));
}

#[test]
fn parse_rejects_truncated_entry_header() {
    let bytes = [TAG, 2, b'e', b'n'];
    let err = MultilingualBouquetNameDescriptor::parse(&bytes).unwrap_err();
    assert!(matches!(err, Error::InvalidDescriptor { .. }));
}

#[test]
fn multilingual_bouquet_name_empty_descriptor_valid() {
    let d = MultilingualBouquetNameDescriptor::parse(&[TAG, 0]).unwrap();
    assert_eq!(d.entries.len(), 0);
}

#[test]
fn multilingual_bouquet_name_serialize_round_trip() {
    let bytes = build(&[(*b"eng", b"Bouquet"), (*b"deu", b"Paket")]);
    let parsed = MultilingualBouquetNameDescriptor::parse(&bytes).unwrap();
    let mut buf = vec![0u8; parsed.serialized_len()];
    parsed.serialize_into(&mut buf).unwrap();
    assert_eq!(buf, bytes);
    let re = MultilingualBouquetNameDescriptor::parse(&buf).unwrap();
    assert_eq!(parsed, re);
}

#[test]
fn multilingual_bouquet_name_serialize_rejects_too_small_buffer() {
    let d = MultilingualBouquetNameDescriptor {
        entries: vec![BouquetNameEntry {
            language_code: LangCode(*b"eng"),
            bouquet_name: DvbText::new(b"X"),
        }],
    };
    let mut tiny = [0u8; 3];
    let err = d.serialize_into(&mut tiny).unwrap_err();
    assert!(matches!(err, Error::OutputBufferTooSmall { .. }));
}

#[test]
fn serialize_rejects_over_range_name() {
    let name = vec![0u8; 256];
    let d = MultilingualBouquetNameDescriptor {
        entries: vec![BouquetNameEntry {
            language_code: LangCode(*b"eng"),
            bouquet_name: DvbText::new(&name),
        }],
    };
    let mut buf = vec![0u8; d.serialized_len()];
    let err = d.serialize_into(&mut buf).unwrap_err();
    assert!(matches!(err, Error::InvalidDescriptor { tag: TAG, .. }));
}

