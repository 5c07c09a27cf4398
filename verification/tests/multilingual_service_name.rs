use dvb_si::descriptors::multilingual_service_name::{MultilingualServiceNameDescriptor, ServiceNameEntry, TAG};
use dvb_si::text::{DvbText, LangCode};
use dvb_si::Error;

const HEADER_LEN: usize = 2;
const LANG_LEN: usize = 3;

/// Builds a descriptor from (language, provider, service) triples.
fn build(entries: &[([u8; 3], &[u8], &[u8])]) -> Vec<u8> {
    let body: usize = entries
        .iter()
        .map(|(_, p, s)| LANG_LEN + 1 + p.len() + 1 + s.len())
        .sum();
    let mut v = Vec::with_capacity(HEADER_LEN + body);
    v.push(TAG);
    v.push(body as u8);
    for (lang, provider, service) in entries {
        v.extend_from_slice(lang);
        v.push(provider.len() as u8);
        v.extend_from_slice(provider);
        v.push(service.len() as u8);
        v.extend_from_slice(service);
    }
    v
}

#[test]
fn multilingual_service_name_parse_single_entry() {
    let bytes = build(&[(*b"eng", b"BBC", b"One")]);
    let d = MultilingualServiceNameDescriptor::parse(&bytes).unwrap();
    assert_eq!(d.entries.len(), 1);
    assert_eq!(d.entries[0].language_code, LangCode(*b"eng"));
    assert_eq!(d.entries[0].service_provider_name.raw(), b"BBC");
    assert_eq!(d.entries[0].service_name.raw(), b"One");
}

#[test]
fn multilingual_service_name_parse_multiple_entries() {
    let bytes = build(&[(*b"eng", b"Prov", b"Svc"), (*b"fra", b"Fourn", b"Chaine")]);
    let d = MultilingualServiceNameDescriptor::parse(&bytes).unwrap();
    assert_eq!(d.entries.len(), 2);
    assert_eq!(d.entries[1].service_name.raw(), b"Chaine");
}

#[test]
fn parse_empty_names_valid() {
    let bytes = build(&[(*b"deu", b"", b"")]);
    let d = MultilingualServiceNameDescriptor::parse(&bytes).unwrap();
    assert!(d.entries[0].service_provider_name.raw().is_empty());
    assert!(d.entries[0].service_name.raw().is_empty());
}

#[test]
fn multilingual_service_name_parse_rejects_wrong_tag() {
    let err = MultilingualServiceNameDescriptor::parse(&[0x5E, 0]).unwrap_err();
    assert!(matches!(err, Error::InvalidDescriptor { tag: 0x5E, .. }));
}

#[test]
fn multilingual_service_name_parse_rejects_short_buffer() {
    let err = MultilingualServiceNameDescriptor::parse(&[TAG]).unwrap_err();
    assert!(matches!(err, Error::BufferTooShort { .. }));
}

#[test]
fn parse_rejects_provider_length_overrun() {
    // provider_len=100 but body tiny.
    let bytes = [TAG, 5, b'e', b'n', b'g', 100, 0];
    let err = MultilingualServiceNameDescriptor::parse(&bytes).unwrap_err();
    assert!(matches!(err, Error::InvalidDescriptor { .. }));
}

#[test]
fn parse_rejects_service_length_overrun() {
    // lang + provider_len=0 + service_len=100, no service bytes.
    let bytes = [TAG, 5, b'e', b'n', b'g', 0, 100];
    let err = MultilingualServiceNameDescriptor::parse(&bytes).unwrap_err();
    assert!(matches!(err, Error::InvalidDescriptor { .. }));
}

#[test]
fn multilingual_service_name_empty_descriptor_valid() {
    let d = MultilingualServiceNameDescriptor::parse(&[TAG, 0]).unwrap();
    assert_eq!(d.entries.len(), 0);
}

#[test]
fn multilingual_service_name_serialize_round_trip() {
    let bytes = build(&[
        (*b"eng", b"Provider", b"Channel"),
        (*b"deu", b"Anbieter", b"Sender"),
    ]);
    let parsed = MultilingualServiceNameDescriptor::parse(&bytes).unwrap();
    let mut buf = vec![0u8; parsed.serialized_len()];
    parsed.serialize_into(&mut buf).unwrap();
    assert_eq!(buf, bytes);
    let re = MultilingualServiceNameDescriptor::parse(&buf).unwrap();
    assert_eq!(parsed, re);
}

#[test]
fn multilingual_service_name_serialize_rejects_too_small_buffer() {
    let d = MultilingualServiceNameDescriptor {
        entries: vec![ServiceNameEntry {
            language_code: LangCode(*b"eng"),
            service_provider_name: DvbText::new(b"P"),
            service_name: DvbText::new(b"S"),
        }],
    };
    let mut tiny = [0u8; 3];
    let err = d.serialize_into(&mut tiny).unwrap_err();
    assert!(matches!(err, Error::OutputBufferTooSmall { .. }));
}

#[test]
fn serialize_rejects_over_range_provider_name() {
    let provider = vec![0u8; 256];
    let d = MultilingualServiceNameDescriptor {
        entries: vec![ServiceNameEntry {
            language_code: LangCode(*b"eng"),
            service_provider_name: DvbText::new(&provider),
            service_name: DvbText::new(b"S"),
        }],
    };
    let mut buf = vec![0u8; d.serialized_len()];
    let err = d.serialize_into(&mut buf).unwrap_err();
    assert!(matches!(err, Error::InvalidDescriptor { tag: TAG, .. }));
}

