use dvb_si::descriptors::multilingual_component::{ComponentTextEntry, MultilingualComponentDescriptor, TAG};
use dvb_si::text::{DvbText, LangCode};
use dvb_si::Error;

const HEADER_LEN: usize = 2;
const LANG_LEN: usize = 3;
const COMPONENT_TAG_LEN: usize = 1;

/// Builds a descriptor from a component tag and (language, text) pairs.
fn build(component_tag: u8, entries: &[([u8; 3], &[u8])]) -> Vec<u8> {
    let body: usize = COMPONENT_TAG_LEN
        + entries
            .iter()
            .map(|(_, t)| LANG_LEN + 1 + t.len())
            .sum::<usize>();
    let mut v = Vec::with_capacity(HEADER_LEN + body);
    v.push(TAG);
    v.push(body as u8);
    v.push(component_tag);
    for (lang, text) in entries {
        v.extend_from_slice(lang);
        v.push(text.len() as u8);
        v.extend_from_slice(text);
    }
    v
}

#[test]
fn parse_extracts_component_tag_and_entries() {
    let bytes = build(0x12, &[(*b"eng", b"Video")]);
    let d = MultilingualComponentDescriptor::parse(&bytes).unwrap();
    assert_eq!(d.component_tag, 0x12);
    assert_eq!(d.entries.len(), 1);
    assert_eq!(d.entries[0].language_code, LangCode(*b"eng"));
    assert_eq!(d.entries[0].text.raw(), b"Video");
}

#[test]
fn multilingual_component_parse_multiple_entries() {
    let bytes = build(0x03, &[(*b"eng", b"Audio"), (*b"fra", b"Son")]);
    let d = MultilingualComponentDescriptor::parse(&bytes).unwrap();
    assert_eq!(d.component_tag, 0x03);
    assert_eq!(d.entries.len(), 2);
    assert_eq!(d.entries[1].text.raw(), b"Son");
}

#[test]
fn parse_component_tag_only_valid() {
    // Body = just the component_tag, no language entries.
    let bytes = [TAG, 1, 0x09];
    let d = MultilingualComponentDescriptor::parse(&bytes).unwrap();
    assert_eq!(d.component_tag, 0x09);
    assert_eq!(d.entries.len(), 0);
}

#[test]
fn multilingual_component_parse_rejects_wrong_tag() {
    let err = MultilingualComponentDescriptor::parse(&[0x5D, 1, 0x00]).unwrap_err();
    assert!(matches!(err, Error::InvalidDescriptor { tag: 0x5D, .. }));
}

#[test]
fn multilingual_component_parse_rejects_short_buffer() {
    let err = MultilingualComponentDescriptor::parse(&[TAG]).unwrap_err();
    assert!(matches!(err, Error::BufferTooShort { .. }));
}

#[test]
fn parse_rejects_missing_component_tag() {
    // length=0: no component_tag.
    let err = MultilingualComponentDescriptor::parse(&[TAG, 0]).unwrap_err();
    assert!(matches!(err, Error::InvalidDescriptor { .. }));
}

#[test]
fn parse_rejects_text_length_overrun() {
    // component_tag + lang + text_len=100 but no text bytes.
    let bytes = [TAG, 5, 0x01, b'e', b'n', b'g', 100];
    let err = MultilingualComponentDescriptor::parse(&bytes).unwrap_err();
    assert!(matches!(err, Error::InvalidDescriptor { .. }));
}

#[test]
fn multilingual_component_serialize_round_trip() {
    let bytes = build(0x07, &[(*b"eng", b"Subtitle"), (*b"deu", b"Untertitel")]);
    let parsed = MultilingualComponentDescriptor::parse(&bytes).unwrap();
    let mut buf = vec![0u8; parsed.serialized_len()];
    parsed.serialize_into(&mut buf).unwrap();
    assert_eq!(buf, bytes);
    let re = MultilingualComponentDescriptor::parse(&buf).unwrap();
    assert_eq!(parsed, re);
}

#[test]
fn multilingual_component_serialize_rejects_too_small_buffer() {
    let d = MultilingualComponentDescriptor {
        component_tag: 0x01,
        entries: vec![],
    };
    let mut tiny = [0u8; 2];
    let err = d.serialize_into(&mut tiny).unwrap_err();
    assert!(matches!(err, Error::OutputBufferTooSmall { .. }));
}

#[test]
fn serialize_rejects_over_range_text() {
    let text = vec![0u8; 256];
    let d = MultilingualComponentDescriptor {
        component_tag: 0x01,
        entries: vec![ComponentTextEntry {
            language_code: LangCode(*b"eng"),
            text: DvbText::new(&text),
        }],
    };
    let mut buf = vec![0u8; d.serialized_len()];
    let err = d.serialize_into(&mut buf).unwrap_err();
    assert!(matches!(err, Error::InvalidDescriptor { tag: TAG, .. }));
}

