use dvb_si::descriptors::extension::{
    ActiveOfdmSymbolDuration, C2GuardInterval, C2TuningFrequencyType, DepthRangeBody, ExtensionBody,
    ExtensionDescriptor, ExtensionTag, ImageIconBody, Message, RegionCodes, ServiceRelocated, ShBandwidth,
    ShCodeRate, ShConstellationAndHierarchy, ShDiversityMode, ShGuardInterval, ShInterleaver,
    ShModulationMode, ShModulationModeType, ShPolarization, ShRollOff, ShTransmissionMode, UriLinkageType,
    TAG,
};
use dvb_si::descriptors::extension::ac4::Ac4;
use dvb_si::descriptors::extension::t2mi::T2mi;
use dvb_si::descriptors::extension::ExtensionBodyDef;
use dvb_si::text::{DvbText, LangCode};
use dvb_si::Error;

/// Wraps selector bytes in the extension descriptor framing (Table 54).
fn wrap(tag_ext: u8, sel: &[u8]) -> Vec<u8> {
    let mut v = vec![TAG, (sel.len() + 1) as u8, tag_ext];
    v.extend_from_slice(sel);
    v
}

/// Serializes `d`, parses the bytes back and checks that the same value returns.
fn round_trip(d: &ExtensionDescriptor) {
    let mut buf = vec![0u8; d.serialized_len()];
    d.serialize_into(&mut buf).unwrap();
    let re = ExtensionDescriptor::parse(&buf).unwrap();
    assert_eq!(*d, re);
}

/// Decodes a hex string into bytes.
fn from_hex(s: &str) -> Vec<u8> {
    (0..s.len())
        .step_by(2)
        .map(|i| u8::from_str_radix(&s[i..i + 2], 16).unwrap())
        .collect()
}

#[test]
fn mod_parse_rejects_wrong_tag() {
    let raw = [0x43, 1, 0x04];
    assert!(matches!(
        ExtensionDescriptor::parse(&raw).unwrap_err(),
        Error::InvalidDescriptor { tag: 0x43, .. }
    ));
}

#[test]
fn mod_parse_rejects_empty_body() {
    let raw = [TAG, 0];
    assert!(matches!(
        ExtensionDescriptor::parse(&raw).unwrap_err(),
        Error::InvalidDescriptor { tag: TAG, .. }
    ));
}

#[test]
fn mod_parse_rejects_truncated_body() {
    // declares length 3 but only 1 body byte present
    let raw = [TAG, 3, 0x08];
    assert!(matches!(
        ExtensionDescriptor::parse(&raw).unwrap_err(),
        Error::BufferTooShort { .. }
    ));
}

#[test]
fn unknown_tag_round_trips_as_raw() {
    // 0x42 is reserved/unknown — must survive as Raw with bytes preserved.
    let sel = [0xDE, 0xAD, 0xBE, 0xEF];
    let bytes = wrap(0x42, &sel);
    let d = ExtensionDescriptor::parse(&bytes).unwrap();
    assert_eq!(d.tag_extension, 0x42);
    assert_eq!(d.kind(), None);
    assert!(matches!(d.body, ExtensionBody::Raw(b) if b == sel));
    round_trip(&d);
}

#[test]
fn user_defined_tag_preserved() {
    let bytes = wrap(0x90, &[0x01, 0x02]);
    let d = ExtensionDescriptor::parse(&bytes).unwrap();
    assert_eq!(d.tag_extension, 0x90);
    assert!(matches!(d.body, ExtensionBody::Raw(_)));
    round_trip(&d);
}

#[test]
fn mod_parse_service_relocated() {
    let sel = [0x12, 0x34, 0x56, 0x78, 0x9A, 0xBC];
    let bytes = wrap(0x0B, &sel);
    let d = ExtensionDescriptor::parse(&bytes).unwrap();
    assert_eq!(d.kind(), Some(ExtensionTag::ServiceRelocated));
    match &d.body {
        ExtensionBody::ServiceRelocated(b) => {
            assert_eq!(b.old_original_network_id, 0x1234);
            assert_eq!(b.old_transport_stream_id, 0x5678);
            assert_eq!(b.old_service_id, 0x9ABC);
        }
        other => panic!("expected ServiceRelocated, got {other:?}"),
    }
    round_trip(&d);
}

#[test]
fn mod_parse_message() {
    let sel = [0x07, b'e', b'n', b'g', b'H', b'i'];
    let bytes = wrap(0x08, &sel);
    let d = ExtensionDescriptor::parse(&bytes).unwrap();
    match &d.body {
        ExtensionBody::Message(b) => {
            assert_eq!(b.message_id, 0x07);
            assert_eq!(b.iso_639_language_code, LangCode(*b"eng"));
            assert_eq!(b.text.raw(), b"Hi");
        }
        other => panic!("expected Message, got {other:?}"),
    }
    round_trip(&d);
}

#[test]
fn parse_supplementary_audio_with_language() {
    // mix_type=1, editorial=0x17, reserved=1, language_code_present=1,
    // then "fre", private 0xAA
    let flags = 0x80 | (0x17 << 2) | 0x02 | 0x01;
    let sel = [flags, b'f', b'r', b'e', 0xAA];
    let bytes = wrap(0x06, &sel);
    let d = ExtensionDescriptor::parse(&bytes).unwrap();
    match &d.body {
        ExtensionBody::SupplementaryAudio(b) => {
            assert!(b.mix_type);
            assert_eq!(b.editorial_classification, 0x17);
            assert!(b.language_code_present);
            assert_eq!(b.iso_639_language_code, Some(LangCode(*b"fre")));
            assert_eq!(b.private_data, &[0xAA]);
        }
        other => panic!("expected SupplementaryAudio, got {other:?}"),
    }
    round_trip(&d);
}

#[test]
fn parse_supplementary_audio_no_language() {
    let flags = ((0x01 << 2) & 0x7C) | 0x02; // mix=0, editorial=1, reserved=1, lang=0
    let sel = [flags];
    let bytes = wrap(0x06, &sel);
    let d = ExtensionDescriptor::parse(&bytes).unwrap();
    match &d.body {
        ExtensionBody::SupplementaryAudio(b) => {
            assert!(!b.language_code_present);
            assert_eq!(b.iso_639_language_code, None);
            assert!(b.private_data.is_empty());
        }
        other => panic!("expected SupplementaryAudio, got {other:?}"),
    }
    round_trip(&d);
}

#[test]
fn mod_parse_c2_delivery_system() {
    let packed = (0x02 << 6) | (0x01 << 3) | 0x01;
    let sel = [0x05, 0x09, 0x12, 0x34, 0x56, 0x78, packed];
    let bytes = wrap(0x0D, &sel);
    let d = ExtensionDescriptor::parse(&bytes).unwrap();
    match &d.body {
        ExtensionBody::C2DeliverySystem(b) => {
            assert_eq!(b.plp_id, 0x05);
            assert_eq!(b.data_slice_id, 0x09);
            assert_eq!(b.c2_system_tuning_frequency, 0x1234_5678);
            assert_eq!(b.c2_system_tuning_frequency_type.to_u8(), 0x02);
            assert_eq!(b.active_ofdm_symbol_duration.to_u8(), 0x01);
            assert_eq!(b.guard_interval.to_u8(), 0x01);
        }
        other => panic!("expected C2DeliverySystem, got {other:?}"),
    }
    round_trip(&d);
}

#[test]
fn parse_c2_bundle_two_entries() {
    let entry = |off: u8| {
        let packed = (0x01u8 << 6) | 0x01; // freq_type=1, ofdm=0, guard=1
                                           // 8 bytes per Table 139: ... + primary_channel(1)+reserved_zero(7)
        [off, off + 1, 0x00, 0x00, 0x10, 0x00, packed, 0x80]
    };
    let mut sel = Vec::new();
    sel.extend_from_slice(&entry(0x01));
    sel.extend_from_slice(&entry(0x05));
    let bytes = wrap(0x16, &sel);
    let d = ExtensionDescriptor::parse(&bytes).unwrap();
    match &d.body {
        ExtensionBody::C2BundleDeliverySystem(b) => {
            assert_eq!(b.entries.len(), 2);
            assert_eq!(b.entries[0].plp_id, 0x01);
            assert!(b.entries[0].primary_channel);
            assert_eq!(b.entries[1].plp_id, 0x05);
            assert_eq!(b.entries[1].guard_interval, 0x01);
        }
        other => panic!("expected C2BundleDeliverySystem, got {other:?}"),
    }
    round_trip(&d);
}

#[test]
fn parse_c2_bundle_rejects_partial_entry() {
    let sel = [0x01, 0x02, 0x03]; // 3 bytes, not a multiple of 8
    let bytes = wrap(0x16, &sel);
    assert!(matches!(
        ExtensionDescriptor::parse(&bytes).unwrap_err(),
        Error::InvalidDescriptor { tag: TAG, .. }
    ));
}

#[test]
fn mod_parse_uri_linkage_with_polling() {
    let uri = b"http://x";
    let mut sel = vec![0x00, uri.len() as u8];
    sel.extend_from_slice(uri);
    sel.extend_from_slice(&0x1234u16.to_be_bytes());
    sel.push(0xFE); // private
    let bytes = wrap(0x13, &sel);
    let d = ExtensionDescriptor::parse(&bytes).unwrap();
    match &d.body {
        ExtensionBody::UriLinkage(b) => {
            assert_eq!(b.uri_linkage_type.to_u8(), 0x00);
            assert_eq!(b.uri.raw(), uri);
            assert_eq!(b.min_polling_interval, Some(0x1234));
            assert_eq!(b.private_data, &[0xFE]);
        }
        other => panic!("expected UriLinkage, got {other:?}"),
    }
    round_trip(&d);
}

#[test]
fn mod_parse_uri_linkage_no_polling() {
    // type 0x02 ⇒ no min_polling_interval
    let uri = b"dvb:";
    let mut sel = vec![0x02, uri.len() as u8];
    sel.extend_from_slice(uri);
    let bytes = wrap(0x13, &sel);
    let d = ExtensionDescriptor::parse(&bytes).unwrap();
    match &d.body {
        ExtensionBody::UriLinkage(b) => {
            assert_eq!(b.min_polling_interval, None);
            assert!(b.private_data.is_empty());
        }
        other => panic!("expected UriLinkage, got {other:?}"),
    }
    round_trip(&d);
}

#[test]
fn mod_parse_ac4_full() {
    // config_flag=1, toc_flag=1; config byte de=1 cm=2; toc len 2 = [0x11,0x22]; extra 0x33
    let sel = [0xC0, 0x80 | (0x02 << 5), 0x02, 0x11, 0x22, 0x33];
    let bytes = wrap(0x15, &sel);
    let d = ExtensionDescriptor::parse(&bytes).unwrap();
    match &d.body {
        ExtensionBody::Ac4(b) => {
            assert!(b.ac4_config_flag);
            assert!(b.ac4_toc_flag);
            assert_eq!(b.ac4_dialog_enhancement_enabled, Some(true));
            assert_eq!(b.ac4_channel_mode, Some(0x02));
            assert_eq!(b.toc, Some([0x11u8, 0x22].as_slice()));
            assert_eq!(b.additional_info, &[0x33]);
        }
        other => panic!("expected Ac4, got {other:?}"),
    }
    round_trip(&d);
}

#[test]
fn mod_parse_ac4_minimal() {
    let sel = [0x00]; // no config, no toc, no extra
    let bytes = wrap(0x15, &sel);
    let d = ExtensionDescriptor::parse(&bytes).unwrap();
    match &d.body {
        ExtensionBody::Ac4(b) => {
            assert!(!b.ac4_config_flag);
            assert!(!b.ac4_toc_flag);
            assert_eq!(b.toc, None);
            assert!(b.additional_info.is_empty());
        }
        other => panic!("expected Ac4, got {other:?}"),
    }
    round_trip(&d);
}

#[test]
fn parse_t2_minimal() {
    // body = plp + system_id = 3 bytes ⇒ no flags block
    let sel = [0x07, 0x12, 0x34];
    let bytes = wrap(0x04, &sel);
    let d = ExtensionDescriptor::parse(&bytes).unwrap();
    match &d.body {
        ExtensionBody::T2DeliverySystem(b) => {
            assert_eq!(b.plp_id, 0x07);
            assert_eq!(b.t2_system_id, 0x1234);
            assert_eq!(b.siso_miso, None);
            assert!(b.cell_loop.is_empty());
        }
        other => panic!("expected T2DeliverySystem, got {other:?}"),
    }
    round_trip(&d);
}

#[test]
fn parse_t2_with_flags_and_cells() {
    // prefix + flags block (siso=1, bw=2, gi=3, tm=4, off=1, tfs=0) + cell loop
    let b0 = (0x01 << 6) | (0x02 << 2);
    let b1 = (0x03 << 5) | (0x04 << 2) | 0x02; // off=1, tfs=0
    let sel = [0x07, 0x12, 0x34, b0, b1, 0xCA, 0xFE];
    let bytes = wrap(0x04, &sel);
    let d = ExtensionDescriptor::parse(&bytes).unwrap();
    match &d.body {
        ExtensionBody::T2DeliverySystem(b) => {
            assert_eq!(b.siso_miso, Some(0x01));
            assert_eq!(b.bandwidth, Some(0x02));
            assert_eq!(b.guard_interval, Some(0x03));
            assert_eq!(b.transmission_mode, Some(0x04));
            assert_eq!(b.other_frequency_flag, Some(true));
            assert_eq!(b.tfs_flag, Some(false));
            assert_eq!(b.cell_loop, &[0xCA, 0xFE]);
        }
        other => panic!("expected T2DeliverySystem, got {other:?}"),
    }
    round_trip(&d);
}

#[test]
fn parse_s2x_primary_with_isi_and_timeslice() {
    // receiver_profiles=0x05; s2x_mode=2, scram_sel=0, ts_gs=1; ISI + timeslice
    let b0 = 0x05 << 3;
    let b1 = (0x02 << 6) | 0x01; // mode 2 [7:6], no scrambling, ts_gs 1 [1:0]
    let mut sel = vec![b0, b1];
    sel.extend_from_slice(&0x0102_0304u32.to_be_bytes()); // frequency
    sel.extend_from_slice(&0x00C8u16.to_be_bytes()); // orbital_position
    sel.push((1 << 7) | (0x02 << 5) | (1 << 4) | 0x03); // we=1 pol=2 mis=1 roll=3
    let sr: u32 = 0x0AB_CDEF; // symbol_rate (28-bit)
    sel.push((sr >> 24) as u8 & 0x0F);
    sel.push((sr >> 16) as u8);
    sel.push((sr >> 8) as u8);
    sel.push(sr as u8);
    sel.push(0x42); // input_stream_identifier (mis=1)
    sel.push(0x09); // timeslice_number (mode==2)
    let bytes = wrap(0x17, &sel);
    let d = ExtensionDescriptor::parse(&bytes).unwrap();
    match &d.body {
        ExtensionBody::S2XSatelliteDeliverySystem(b) => {
            assert_eq!(b.receiver_profiles, 0x05);
            assert_eq!(b.s2x_mode, 2);
            assert!(!b.scrambling_sequence_selector);
            assert_eq!(b.ts_gs_s2x_mode, 1);
            assert_eq!(b.frequency, 0x0102_0304);
            assert_eq!(b.orbital_position, 0x00C8);
            assert!(b.west_east_flag);
            assert_eq!(b.polarization, 2);
            assert!(b.multiple_input_stream_flag);
            assert_eq!(b.roll_off, 3);
            assert_eq!(b.symbol_rate, 0x0AB_CDEF);
            assert_eq!(b.input_stream_identifier, Some(0x42));
            assert_eq!(b.timeslice_number, Some(0x09));
            assert!(b.tail.is_empty());
        }
        other => panic!("expected S2X, got {other:?}"),
    }
    round_trip(&d);
}

#[test]
fn parse_s2x_with_scrambling_index() {
    let b0 = 0x01 << 3;
    let b1 = (0x01 << 6) | 0x20; // mode 1 [7:6], scrambling selector set [5]
    let mut sel = vec![b0, b1];
    // scrambling index 0x2ABCD (18-bit)
    sel.push(0x02);
    sel.push(0xAB);
    sel.push(0xCD);
    sel.extend_from_slice(&0u32.to_be_bytes()); // frequency
    sel.extend_from_slice(&0u16.to_be_bytes()); // orbital
    sel.push(0x00); // packed (mis=0)
    sel.extend_from_slice(&[0, 0, 0, 0]); // symbol_rate
    let bytes = wrap(0x17, &sel);
    let d = ExtensionDescriptor::parse(&bytes).unwrap();
    match &d.body {
        ExtensionBody::S2XSatelliteDeliverySystem(b) => {
            assert!(b.scrambling_sequence_selector);
            assert_eq!(b.scrambling_sequence_index, Some(0x2ABCD));
            assert_eq!(b.input_stream_identifier, None);
            assert_eq!(b.timeslice_number, None);
        }
        other => panic!("expected S2X, got {other:?}"),
    }
    round_trip(&d);
}

#[test]
fn parse_s2x_mode3_tail_preserved() {
    // mode 3 (channel bonding) — the bond loop lands in `tail` (raw).
    let b0 = 0x01 << 3;
    let b1 = 0x03 << 6; // mode 3 [7:6], no scrambling, ts_gs 0
    let mut sel = vec![b0, b1];
    sel.extend_from_slice(&0u32.to_be_bytes());
    sel.extend_from_slice(&0u16.to_be_bytes());
    sel.push(0x00); // mis=0
    sel.extend_from_slice(&[0, 0, 0, 0]); // symbol_rate
    sel.extend_from_slice(&[0xAA, 0xBB, 0xCC]); // raw channel-bond tail
    let bytes = wrap(0x17, &sel);
    let d = ExtensionDescriptor::parse(&bytes).unwrap();
    match &d.body {
        ExtensionBody::S2XSatelliteDeliverySystem(b) => {
            assert_eq!(b.s2x_mode, 3);
            assert_eq!(b.timeslice_number, None);
            assert_eq!(b.tail, &[0xAA, 0xBB, 0xCC]);
        }
        other => panic!("expected S2X, got {other:?}"),
    }
    round_trip(&d);
}

#[test]
fn parse_audio_preselection_keeps_loop_raw() {
    // num_preselections=3 then raw loop
    let sel = [0x03 << 3, 0xAA, 0xBB, 0xCC];
    let bytes = wrap(0x19, &sel);
    let d = ExtensionDescriptor::parse(&bytes).unwrap();
    match &d.body {
        ExtensionBody::AudioPreselection(b) => {
            assert_eq!(b.num_preselections, 3);
            assert_eq!(b.preselection_loop, &[0xAA, 0xBB, 0xCC]);
        }
        other => panic!("expected AudioPreselection, got {other:?}"),
    }
    round_trip(&d);
}

#[test]
fn parse_ttml_subtitling() {
    // ISO "eng", subtitle_purpose=0x10, tts=0x1, font=0, qualifier=0, count=1, then tail
    let b3 = (0x10 << 2) | 0x01;
    let b4 = 0x01; // font=0 qual=0 reserved=0 count=1
    let sel = [b'e', b'n', b'g', b3, b4, 0x00, 0x02, b'h', b'i'];
    let bytes = wrap(0x20, &sel);
    let d = ExtensionDescriptor::parse(&bytes).unwrap();
    match &d.body {
        ExtensionBody::TtmlSubtitling(b) => {
            assert_eq!(b.iso_639_language_code, LangCode(*b"eng"));
            assert_eq!(b.subtitle_purpose, 0x10);
            assert_eq!(b.tts_suitability, 0x01);
            assert!(b.font_ids.is_none());
            assert!(b.qualifier.is_none());
            assert_eq!(b.dvb_ttml_profiles.len(), 1);
            let mut rest = b.dvb_ttml_profiles.clone();
            rest.push(b.text.len() as u8);
            rest.extend_from_slice(b.text.raw());
            rest.extend_from_slice(b.reserved_tail);
            assert_eq!(rest, &[0x00, 0x02, b'h', b'i']);
        }
        other => panic!("expected TtmlSubtitling, got {other:?}"),
    }
    round_trip(&d);
}

#[test]
fn parse_service_prominence_one_entry_service_only() {
    // One SOGI entry: service_flag=1, target_region_flag=0,
    // sogi_priority=0x123, service_id=0x4567, private_data [0xAB]
    let sel = [0x04, 0x21, 0x23, 0x45, 0x67, 0xAB];
    let bytes = wrap(0x22, &sel);
    let d = ExtensionDescriptor::parse(&bytes).unwrap();
    assert_eq!(d.kind(), Some(ExtensionTag::ServiceProminence));
    match &d.body {
        ExtensionBody::ServiceProminence(b) => {
            assert_eq!(b.sogi_list.len(), 1);
            let e = &b.sogi_list[0];
            assert!(!e.sogi_flag);
            assert!(!e.target_region_flag);
            assert!(e.service_flag);
            assert_eq!(e.sogi_priority, 0x0123);
            assert_eq!(e.service_id, Some(0x4567));
            assert!(e.target_region_loop.is_none());
            assert_eq!(b.private_data, &[0xAB]);
        }
        other => panic!("expected ServiceProminence, got {other:?}"),
    }
    round_trip(&d);
}

#[test]
fn parse_service_prominence_one_entry_target_region() {
    // One SOGI entry: service_flag=0, target_region_flag=1,
    // sogi_priority=0x001, target_region_loop = [0xAA, 0xBB].
    let sel = [0x05, 0x40, 0x01, 0x02, 0xAA, 0xBB];
    let bytes = wrap(0x22, &sel);
    let d = ExtensionDescriptor::parse(&bytes).unwrap();
    match &d.body {
        ExtensionBody::ServiceProminence(b) => {
            assert_eq!(b.sogi_list.len(), 1);
            let e = &b.sogi_list[0];
            assert!(!e.sogi_flag);
            assert!(e.target_region_flag);
            assert!(!e.service_flag);
            assert_eq!(e.sogi_priority, 0x0001);
            assert!(e.service_id.is_none());
            assert_eq!(e.target_region_loop, Some([0xAAu8, 0xBB].as_slice()));
            assert!(b.private_data.is_empty());
        }
        other => panic!("expected ServiceProminence, got {other:?}"),
    }
    round_trip(&d);
}

#[test]
fn parse_service_prominence_two_entries_plus_private() {
    // Two SOGI entries + private_data tail.
    // Entry 0: service_flag=1, sogi_priority=0xABC, service_id=0x1111.
    // Entry 1: target_region_flag=1, sogi_priority=0x345, region=[0xCC].
    let sel = [0x08, 0x2A, 0xBC, 0x11, 0x11, 0x43, 0x45, 0x01, 0xCC, 0xDD];
    let bytes = wrap(0x22, &sel);
    let d = ExtensionDescriptor::parse(&bytes).unwrap();
    match &d.body {
        ExtensionBody::ServiceProminence(b) => {
            assert_eq!(b.sogi_list.len(), 2);
            let e0 = &b.sogi_list[0];
            assert!(e0.service_flag);
            assert_eq!(e0.sogi_priority, 0x0ABC);
            assert_eq!(e0.service_id, Some(0x1111));
            assert!(e0.target_region_loop.is_none());
            let e1 = &b.sogi_list[1];
            assert!(!e1.sogi_flag);
            assert!(e1.target_region_flag);
            assert!(!e1.service_flag);
            assert_eq!(e1.sogi_priority, 0x0345);
            assert_eq!(e1.target_region_loop, Some([0xCCu8].as_slice()));
            assert_eq!(b.private_data, &[0xDD]);
        }
        other => panic!("expected ServiceProminence, got {other:?}"),
    }
    round_trip(&d);
}

#[test]
fn parse_service_prominence_empty_list_private_only() {
    // SOGI_list_length=0, private=[0x01, 0x02]
    let sel = [0x00, 0x01, 0x02];
    let bytes = wrap(0x22, &sel);
    let d = ExtensionDescriptor::parse(&bytes).unwrap();
    match &d.body {
        ExtensionBody::ServiceProminence(b) => {
            assert!(b.sogi_list.is_empty());
            assert_eq!(b.private_data, &[0x01, 0x02]);
        }
        other => panic!("expected ServiceProminence, got {other:?}"),
    }
    round_trip(&d);
}

#[test]
fn parse_service_prominence_rejects_overrun() {
    // SOGI_list_length=5 but only 3 bytes follow
    let sel = [0x05, 0xAA, 0xBB, 0xCC];
    let bytes = wrap(0x22, &sel);
    assert!(matches!(
        ExtensionDescriptor::parse(&bytes).unwrap_err(),
        Error::InvalidDescriptor { tag: TAG, .. }
    ));
}

#[test]
fn parse_service_prominence_rejects_entry_overrun() {
    // SOGI_list_length=3, service_flag=1 but no service_id bytes follow
    let sel = [0x03, 0x20, 0x00, 0x00];
    let bytes = wrap(0x22, &sel);
    assert!(matches!(
        ExtensionDescriptor::parse(&bytes).unwrap_err(),
        Error::InvalidDescriptor { tag: TAG, .. }
    ));
}

#[test]
fn parse_network_change_notify_loop_raw() {
    let sel = [0x00, 0x01, 0x05, 0xAA, 0xBB];
    let bytes = wrap(0x07, &sel);
    let d = ExtensionDescriptor::parse(&bytes).unwrap();
    match &d.body {
        ExtensionBody::NetworkChangeNotify(b) => {
            assert_eq!(b.cell_loop, &sel);
        }
        other => panic!("expected NetworkChangeNotify, got {other:?}"),
    }
    round_trip(&d);
}

#[test]
fn mod_parse_t2mi_round_trip() {
    // t2mi_stream_id=5, num_t2mi_streams_minus_one=2,
    // pcr_iscr_common_clock_flag=true, 2-byte reserved tail.
    let sel = [0x05, 0x02, 0x01, 0x00, 0x00];
    let bytes = wrap(0x11, &sel);
    let d = ExtensionDescriptor::parse(&bytes).unwrap();
    assert_eq!(d.kind(), Some(ExtensionTag::T2mi));
    match &d.body {
        ExtensionBody::T2mi(b) => {
            assert_eq!(b.t2mi_stream_id, 5);
            assert_eq!(b.num_t2mi_streams_minus_one, 2);
            assert!(b.pcr_iscr_common_clock_flag);
            assert_eq!(b.reserved_tail, &[0x00, 0x00]);
        }
        other => panic!("expected T2mi, got {other:?}"),
    }
    // parse → serialize → parse round-trip (byte-identical)
    round_trip(&d);
    // Also verify that serialize → parse round-trips the flag false variant
    let sel2 = [0x07, 0x00, 0x00, 0xFF];
    let bytes2 = wrap(0x11, &sel2);
    let d2 = ExtensionDescriptor::parse(&bytes2).unwrap();
    round_trip(&d2);
}

#[test]
fn mod_parse_t2mi_minimal() {
    // Only the 3 mandatory bytes, no reserved tail.
    let sel = [0x01, 0x03, 0x01];
    let bytes = wrap(0x11, &sel);
    let d = ExtensionDescriptor::parse(&bytes).unwrap();
    match &d.body {
        ExtensionBody::T2mi(b) => {
            assert_eq!(b.t2mi_stream_id, 1);
            assert_eq!(b.num_t2mi_streams_minus_one, 3);
            assert!(b.pcr_iscr_common_clock_flag);
            assert!(b.reserved_tail.is_empty());
        }
        other => panic!("expected T2mi, got {other:?}"),
    }
    round_trip(&d);
}

#[test]
fn mod_serialize_rejects_too_small_buffer() {
    let d = ExtensionDescriptor {
        tag_extension: 0x0B,
        body: ExtensionBody::ServiceRelocated(ServiceRelocated {
            old_original_network_id: 1,
            old_transport_stream_id: 2,
            old_service_id: 3,
        }),
    };
    let mut tiny = [0u8; 2];
    assert!(matches!(
        d.serialize_into(&mut tiny).unwrap_err(),
        Error::OutputBufferTooSmall { .. }
    ));
}

#[test]
fn descriptor_length_matches_body() {
    let d = ExtensionDescriptor {
        tag_extension: 0x08,
        body: ExtensionBody::Message(Message {
            message_id: 1,
            iso_639_language_code: LangCode(*b"eng"),
            text: DvbText::new(b"hello"),
        }),
    };
    // tag_ext(1) + message_id(1) + iso(3) + text(5) = 10
    assert_eq!(d.descriptor_length(), 10);
}

#[test]
fn mod_parse_video_depth_range_two_entries_round_trip() {
    // Two depth ranges in one selector:
    //   entry 1: range_type 0x00, range_length 3, disparity max=100 min=-50
    //   entry 2: range_type 0x05, range_length 2, raw [0xAA, 0xBB]
    // max=100 -> 0x0074 bits -> sext12=100; min=-50 -> 0x0032 bits,
    // two's complement of 50 is 0x0FCE, sext12 -> -50.
    let max_val: i16 = 100;
    let min_val: i16 = -50;
    let max_b = max_val as u16 & 0x0FFF; // 0x0064
    let min_b = min_val as u16 & 0x0FFF; // 0x0FCE
    let sel = [
        0x00,
        0x03,
        (max_b >> 4) as u8,
        (((max_b & 0x0F) << 4) | ((min_b >> 8) & 0x0F)) as u8,
        min_b as u8,
        0x05,
        0x02,
        0xAA,
        0xBB,
    ];
    let bytes = wrap(0x10, &sel);
    let d = ExtensionDescriptor::parse(&bytes).unwrap();
    assert_eq!(d.kind(), Some(ExtensionTag::VideoDepthRange));
    match &d.body {
        ExtensionBody::VideoDepthRange(b) => {
            assert_eq!(b.ranges.len(), 2);
            assert_eq!(b.ranges[0].range_type, 0x00);
            match &b.ranges[0].body {
                DepthRangeBody::ProductionDisparityHint { max, min } => {
                    assert_eq!(*max, 100);
                    assert_eq!(*min, -50);
                }
                _ => panic!("expected ProductionDisparityHint"),
            }
            assert_eq!(b.ranges[1].range_type, 0x05);
            match &b.ranges[1].body {
                DepthRangeBody::Other(s) => assert_eq!(s, &[0xAA, 0xBB]),
                _ => panic!("expected Other"),
            }
        }
        other => panic!("expected VideoDepthRange, got {other:?}"),
    }
    // parse → serialize → parse round-trip (byte-identical)
    round_trip(&d);
}

#[test]
fn mod_parse_video_depth_range_negative_edge_round_trip() {
    // ProductionDisparityHint with max=-1 (0x0FFF), min=0
    let max_val: i16 = -1;
    let min_val: i16 = 0;
    let max_b = max_val as u16 & 0x0FFF;
    let min_b = min_val as u16 & 0x0FFF;
    let sel = [
        0x00,
        0x03,
        (max_b >> 4) as u8,
        (((max_b & 0x0F) << 4) | ((min_b >> 8) & 0x0F)) as u8,
        min_b as u8,
    ];
    let bytes = wrap(0x10, &sel);
    let d = ExtensionDescriptor::parse(&bytes).unwrap();
    match &d.body {
        ExtensionBody::VideoDepthRange(b) => {
            assert_eq!(b.ranges.len(), 1);
            match &b.ranges[0].body {
                DepthRangeBody::ProductionDisparityHint { max, min } => {
                    assert_eq!(*max, -1);
                    assert_eq!(*min, 0);
                }
                _ => panic!("expected ProductionDisparityHint"),
            }
        }
        other => panic!("expected VideoDepthRange, got {other:?}"),
    }
    round_trip(&d);
}

#[test]
fn mod_parse_video_depth_range_multi_region_sei_round_trip() {
    // range_type 0x01 with empty body
    let sel = [0x01, 0x00, 0x01, 0x00];
    let bytes = wrap(0x10, &sel);
    let d = ExtensionDescriptor::parse(&bytes).unwrap();
    match &d.body {
        ExtensionBody::VideoDepthRange(b) => {
            assert_eq!(b.ranges.len(), 2);
            assert!(matches!(b.ranges[0].body, DepthRangeBody::MultiRegionSei));
            assert!(matches!(b.ranges[1].body, DepthRangeBody::MultiRegionSei));
        }
        other => panic!("expected VideoDepthRange, got {other:?}"),
    }
    round_trip(&d);
}

#[test]
fn mod_parse_video_depth_range_empty_selector() {
    let bytes = wrap(0x10, &[]);
    let d = ExtensionDescriptor::parse(&bytes).unwrap();
    match &d.body {
        ExtensionBody::VideoDepthRange(b) => {
            assert!(b.ranges.is_empty());
        }
        other => panic!("expected VideoDepthRange, got {other:?}"),
    }
    round_trip(&d);
}

#[test]
fn mod_parse_vvc_subpictures_with_description_round_trip() {
    // Table 162a: default_service_mode=true, 2 subpictures,
    // processing_mode=5, service_description = "Hi" (2 bytes).
    // byte0: ds=1(0x80) | sdp=1(0x40) | n=2(0x02) = 0xC2
    // subpicture 0: component_tag=0x10, vvc_subpicture_id=0x01
    // subpicture 1: component_tag=0x11, vvc_subpicture_id=0x02
    // processing_mode byte: 0x05
    // service_description_length: 2, then b'H', b'i'
    let sel = [0xC2, 0x10, 0x01, 0x11, 0x02, 0x05, 0x02, b'H', b'i'];
    let bytes = wrap(0x23, &sel);
    let d = ExtensionDescriptor::parse(&bytes).unwrap();
    assert_eq!(d.kind(), Some(ExtensionTag::VvcSubpictures));
    match &d.body {
        ExtensionBody::VvcSubpictures(b) => {
            assert!(b.default_service_mode);
            assert_eq!(b.subpictures.len(), 2);
            assert_eq!(b.subpictures[0].component_tag, 0x10);
            assert_eq!(b.subpictures[0].vvc_subpicture_id, 0x01);
            assert_eq!(b.subpictures[1].component_tag, 0x11);
            assert_eq!(b.subpictures[1].vvc_subpicture_id, 0x02);
            assert_eq!(b.processing_mode, 5);
            assert!(b.service_description.is_some());
            let desc = b.service_description.as_ref().unwrap();
            assert_eq!(desc.raw(), b"Hi");
            assert_eq!(desc.decode(), "Hi");
        }
        other => panic!("expected VvcSubpictures, got {other:?}"),
    }
    round_trip(&d);
}

#[test]
fn mod_parse_vvc_subpictures_no_description_round_trip() {
    // default_service_mode=false, 1 subpicture, processing_mode=1,
    // no service_description.
    // byte0: ds=0 | sdp=0 | n=1 = 0x01
    let sel = [0x01, 0x20, 0x03, 0x01];
    let bytes = wrap(0x23, &sel);
    let d = ExtensionDescriptor::parse(&bytes).unwrap();
    match &d.body {
        ExtensionBody::VvcSubpictures(b) => {
            assert!(!b.default_service_mode);
            assert_eq!(b.subpictures.len(), 1);
            assert_eq!(b.subpictures[0].component_tag, 0x20);
            assert_eq!(b.subpictures[0].vvc_subpicture_id, 0x03);
            assert_eq!(b.processing_mode, 1);
            assert!(b.service_description.is_none());
        }
        other => panic!("expected VvcSubpictures, got {other:?}"),
    }
    round_trip(&d);
}

#[test]
fn mod_parse_vvc_subpictures_serialize_round_trip_no_subpictures() {
    // Zero subpictures, no description — minimal valid payload.
    // byte0: ds=1(0x80) | sdp=0 | n=0 = 0x80
    let sel = [0x80, 0x03];
    let bytes = wrap(0x23, &sel);
    let d = ExtensionDescriptor::parse(&bytes).unwrap();
    match &d.body {
        ExtensionBody::VvcSubpictures(b) => {
            assert!(b.default_service_mode);
            assert!(b.subpictures.is_empty());
            assert_eq!(b.processing_mode, 3);
            assert!(b.service_description.is_none());
        }
        other => panic!("expected VvcSubpictures, got {other:?}"),
    }
    round_trip(&d);
}

#[test]
fn mod_parse_image_icon_first_position_mode0() {
    // descriptor_number=0, last=3, icon_id=5
    // position_flag=1, coordinate_system=1, h_origin=100, v_origin=200
    // icon_type=[0xDE, 0xAD], mode=0 icon_data=[0x01, 0x02, 0x03]
    // byte0: (0<<4)|3 = 0x03
    // byte1: icon_id=5, reserved=0 = 0x05
    // packed: (0<<6)|(1<<5)|(1<<2) = 0x24
    // origin: h=100=0x0064, v=200=0x00C8 → b0=0x06, b1=0x40, b2=0xC8
    let sel = [
        0x03, 0x05, 0x24, 0x06, 0x40, 0xC8, 0x02, 0xDE, 0xAD, 0x03, 0x01, 0x02, 0x03,
    ];
    let bytes = wrap(0x00, &sel);
    let d = ExtensionDescriptor::parse(&bytes).unwrap();
    assert_eq!(d.kind(), Some(ExtensionTag::ImageIcon));
    match &d.body {
        ExtensionBody::ImageIcon(b) => {
            assert_eq!(b.descriptor_number, 0);
            assert_eq!(b.last_descriptor_number, 3);
            assert_eq!(b.icon_id, 5);
            match &b.body {
                ImageIconBody::First(f) => {
                    assert_eq!(f.icon_transport_mode, 0);
                    assert!(f.position.is_some());
                    let pos = f.position.as_ref().unwrap();
                    assert_eq!(pos.coordinate_system, 1);
                    assert_eq!(pos.icon_horizontal_origin, 100);
                    assert_eq!(pos.icon_vertical_origin, 200);
                    assert_eq!(f.icon_type, &[0xDE, 0xAD]);
                    assert_eq!(f.payload, &[0x01, 0x02, 0x03]);
                }
                other => panic!("expected First, got {other:?}"),
            }
        }
        other => panic!("expected ImageIcon, got {other:?}"),
    }
    round_trip(&d);
}

#[test]
fn mod_parse_image_icon_first_no_position_mode1() {
    // descriptor_number=0, last=1, icon_id=7
    // position_flag=0, mode=1 (URL), icon_type=[0xAB], url=b"http"
    // byte0: (0<<4)|1 = 0x01; byte1: 0x07
    // packed: (1<<6)|(0<<5) = 0x40
    let sel = [0x01, 0x07, 0x40, 0x01, 0xAB, 0x04, b'h', b't', b't', b'p'];
    let bytes = wrap(0x00, &sel);
    let d = ExtensionDescriptor::parse(&bytes).unwrap();
    match &d.body {
        ExtensionBody::ImageIcon(b) => match &b.body {
            ImageIconBody::First(f) => {
                assert_eq!(f.icon_transport_mode, 1);
                assert!(f.position.is_none());
                assert_eq!(f.icon_type, &[0xAB]);
                assert_eq!(f.payload, b"http");
            }
            other => panic!("expected First, got {other:?}"),
        },
        other => panic!("expected ImageIcon, got {other:?}"),
    }
    round_trip(&d);
}

#[test]
fn mod_parse_image_icon_first_mode2_empty_payload() {
    // descriptor_number=0, last=0, icon_id=0, mode=2 (reserved),
    // position_flag=0, icon_type=0 bytes, empty payload
    // byte0: 0x00; byte1: 0x00; packed: (2<<6) = 0x80
    let sel = [0x00, 0x00, 0x80, 0x00];
    let bytes = wrap(0x00, &sel);
    let d = ExtensionDescriptor::parse(&bytes).unwrap();
    match &d.body {
        ExtensionBody::ImageIcon(b) => match &b.body {
            ImageIconBody::First(f) => {
                assert_eq!(f.icon_transport_mode, 2);
                assert!(f.position.is_none());
                assert!(f.icon_type.is_empty());
                assert!(f.payload.is_empty());
            }
            other => panic!("expected First, got {other:?}"),
        },
        other => panic!("expected ImageIcon, got {other:?}"),
    }
    round_trip(&d);
}

#[test]
fn mod_parse_image_icon_continuation() {
    // descriptor_number=2, last=3, icon_id=1
    // icon_data=[0xAA, 0xBB, 0xCC, 0xDD]
    // byte0: (2<<4)|3 = 0x23; byte1: 0x01; length=4
    let sel = [0x23, 0x01, 0x04, 0xAA, 0xBB, 0xCC, 0xDD];
    let bytes = wrap(0x00, &sel);
    let d = ExtensionDescriptor::parse(&bytes).unwrap();
    assert_eq!(d.kind(), Some(ExtensionTag::ImageIcon));
    match &d.body {
        ExtensionBody::ImageIcon(b) => {
            assert_eq!(b.descriptor_number, 2);
            assert_eq!(b.last_descriptor_number, 3);
            assert_eq!(b.icon_id, 1);
            match &b.body {
                ImageIconBody::Continuation { icon_data } => {
                    assert_eq!(icon_data, &[0xAA, 0xBB, 0xCC, 0xDD]);
                }
                other => panic!("expected Continuation, got {other:?}"),
            }
        }
        other => panic!("expected ImageIcon, got {other:?}"),
    }
    round_trip(&d);
}

#[test]
fn mod_parse_image_icon_rejects_trailing_bytes() {
    // First segment with an extra trailing byte.
    // mode=2, one extra byte 0xFF after the complete parse.
    let sel = [0x00, 0x00, 0x80, 0x00, 0xFF];
    let bytes = wrap(0x00, &sel);
    assert!(matches!(
        ExtensionDescriptor::parse(&bytes).unwrap_err(),
        Error::InvalidDescriptor { tag: TAG, .. }
    ));
}

#[test]
fn mod_parse_image_icon_rejects_truncated_continuation() {
    // Continuation with length=5 but only 3 data bytes.
    let sel = [0x23, 0x01, 0x05, 0xAA, 0xBB, 0xCC];
    let bytes = wrap(0x00, &sel);
    assert!(matches!(
        ExtensionDescriptor::parse(&bytes).unwrap_err(),
        Error::InvalidDescriptor { tag: TAG, .. }
    ));
}

#[test]
fn mod_parse_sh_tdm_no_interleaver() {
    // diversity_mode=0x0D (1101), one TDM entry, no interleaver.
    // TDM: polarization=2, roll_off=1, modulation_mode=3,
    //      code_rate=10 (1010), symbol_rate=21 (10101).
    // flags: mod_type=0, inter_pres=0, inter_type=0 -> 0x00
    // mb0 = (2<<6)|(1<<4)|(3<<2)|((10>>2)&3) = 0x80|0x10|0x0C|0x02 = 0x9E
    // mb1 = ((10&3)<<6)|(21<<1) = (2<<6)|42 = 0x80|0x2A = 0xAA
    let sel = [0xD0, 0x00, 0x9E, 0xAA];
    let bytes = wrap(0x05, &sel);
    let d = ExtensionDescriptor::parse(&bytes).unwrap();
    assert_eq!(d.kind(), Some(ExtensionTag::ShDeliverySystem));
    match &d.body {
        ExtensionBody::ShDeliverySystem(b) => {
            assert_eq!(b.diversity_mode.to_u8(), 0x0D);
            assert_eq!(b.modulations.len(), 1);
            let m = &b.modulations[0];
            assert!(m.interleaver.is_none());
            match &m.modulation {
                ShModulationMode::Tdm {
                    polarization,
                    roll_off,
                    modulation_mode,
                    code_rate,
                    symbol_rate,
                } => {
                    assert_eq!(polarization.to_u8(), 2);
                    assert_eq!(roll_off.to_u8(), 1);
                    assert_eq!(modulation_mode.to_u8(), 3);
                    assert_eq!(code_rate.to_u8(), 10);
                    assert_eq!(*symbol_rate, 21);
                }
                other => panic!("expected Tdm, got {other:?}"),
            }
        }
        other => panic!("expected ShDeliverySystem, got {other:?}"),
    }
    round_trip(&d);
}

#[test]
fn mod_parse_sh_ofdm_interleaver_type1() {
    // diversity_mode=0x05, one OFDM entry, interleaver Type1.
    // OFDM: bw=1, pri=true, cah=2, cr=11(0x0B), gi=3, tm=2, cf=true
    // Interleaver Type1: cm=21(0x15)
    // flags: mod_type=1, inter_pres=1, inter_type=1 -> 0xE0
    // mb0 = (1<<5)|(1<<4)|(2<<1)|((11>>3)&1) = 0x20|0x10|0x04|0x01 = 0x35
    // mb1 = ((11&7)<<5)|(3<<3)|(2<<1)|1 = 0x60|0x18|0x04|0x01 = 0x7D
    // Type1 byte: (21<<2) = 0x54
    let sel = [0x50, 0xE0, 0x35, 0x7D, 0x54];
    let bytes = wrap(0x05, &sel);
    let d = ExtensionDescriptor::parse(&bytes).unwrap();
    match &d.body {
        ExtensionBody::ShDeliverySystem(b) => {
            assert_eq!(b.diversity_mode.to_u8(), 0x05);
            assert_eq!(b.modulations.len(), 1);
            let m = &b.modulations[0];
            match &m.modulation {
                ShModulationMode::Ofdm {
                    bandwidth,
                    priority,
                    constellation_and_hierarchy,
                    code_rate,
                    guard_interval,
                    transmission_mode,
                    common_frequency,
                } => {
                    assert_eq!(bandwidth.to_u8(), 1);
                    assert!(*priority);
                    assert_eq!(constellation_and_hierarchy.to_u8(), 2);
                    assert_eq!(code_rate.to_u8(), 11);
                    assert_eq!(guard_interval.to_u8(), 3);
                    assert_eq!(transmission_mode.to_u8(), 2);
                    assert!(*common_frequency);
                }
                other => panic!("expected Ofdm, got {other:?}"),
            }
            match &m.interleaver {
                Some(ShInterleaver::Type1 { common_multiplier }) => {
                    assert_eq!(*common_multiplier, 21);
                }
                other => panic!("expected Type1 interleaver, got {other:?}"),
            }
        }
        other => panic!("expected ShDeliverySystem, got {other:?}"),
    }
    round_trip(&d);
}

#[test]
fn mod_parse_sh_tdm_interleaver_type0() {
    // diversity_mode=0x08, one TDM entry, interleaver Type0.
    // TDM: pol=0, ro=3, mm=1, cr=5, sr=10
    // Type0: cm=10, lt=20, ns=30, sd=100, nli=40
    // flags: mod_type=0, inter_pres=1, inter_type=0 -> 0x40
    // mb0 = (0<<6)|(3<<4)|(1<<2)|((5>>2)&3) = 0x30|0x04|0x01 = 0x35
    // mb1 = ((5&3)<<6)|(10<<1) = (1<<6)|20 = 0x40|0x14 = 0x54
    // Type0 byte0: (10<<2)|(20>>4) = 40|1 = 0x29
    // Type0 byte1: ((20&15)<<4)|(30>>2) = (4<<4)|7 = 0x47
    // Type0 byte2: ((30&3)<<6)|(100>>2) = (2<<6)|25 = 0x99
    // Type0 byte3: ((100&3)<<6)|40 = 0x28
    let sel = [0x80, 0x40, 0x35, 0x54, 0x29, 0x47, 0x99, 0x28];
    let bytes = wrap(0x05, &sel);
    let d = ExtensionDescriptor::parse(&bytes).unwrap();
    match &d.body {
        ExtensionBody::ShDeliverySystem(b) => {
            assert_eq!(b.diversity_mode.to_u8(), 0x08);
            assert_eq!(b.modulations.len(), 1);
            let m = &b.modulations[0];
            match &m.modulation {
                ShModulationMode::Tdm {
                    polarization,
                    roll_off,
                    modulation_mode,
                    code_rate,
                    symbol_rate,
                } => {
                    assert_eq!(polarization.to_u8(), 0);
                    assert_eq!(roll_off.to_u8(), 3);
                    assert_eq!(modulation_mode.to_u8(), 1);
                    assert_eq!(code_rate.to_u8(), 5);
                    assert_eq!(*symbol_rate, 10);
                }
                other => panic!("expected Tdm, got {other:?}"),
            }
            match &m.interleaver {
                Some(ShInterleaver::Type0 {
                    common_multiplier,
                    nof_late_taps,
                    nof_slices,
                    slice_distance,
                    non_late_increments,
                }) => {
                    assert_eq!(*common_multiplier, 10);
                    assert_eq!(*nof_late_taps, 20);
                    assert_eq!(*nof_slices, 30);
                    assert_eq!(*slice_distance, 100);
                    assert_eq!(*non_late_increments, 40);
                }
                other => panic!("expected Type0 interleaver, got {other:?}"),
            }
        }
        other => panic!("expected ShDeliverySystem, got {other:?}"),
    }
    round_trip(&d);
}

#[test]
fn mod_parse_sh_two_entries_mixed() {
    // diversity_mode=0x0D
    // Entry 1: TDM (same as test 1), no interleaver.
    // Entry 2: OFDM bw=4 pri=false cah=5 cr=9 gi=1 tm=1 cf=false,
    //          Type0 interleaver cm=15 lt=25 ns=35 sd=50 nli=55
    // Entry1: flags=0x00, mb0=0x9E, mb1=0xAA
    // Entry2 flags: 0xC0 (mod=1, pres=1, type=0)
    // OFDM mb0: (4<<5)|(0<<4)|(5<<1)|((9>>3)&1) = 0x80|0x0A|0x01 = 0x8B
    // OFDM mb1: ((9&7)<<5)|(1<<3)|(1<<1)|0 = 0x20|0x08|0x02 = 0x2A
    // Type0 byte0: (15<<2)|(25>>4) = 60|1 = 0x3D
    // Type0 byte1: ((25&15)<<4)|(35>>2) = (9<<4)|8 = 0x98
    // Type0 byte2: ((35&3)<<6)|(50>>2) = (3<<6)|12 = 0xCC
    // Type0 byte3: ((50&3)<<6)|55 = (2<<6)|55 = 0xB7
    let sel = [
        0xD0, 0x00, 0x9E, 0xAA, 0xC0, 0x8B, 0x2A, 0x3D, 0x98, 0xCC, 0xB7,
    ];
    let bytes = wrap(0x05, &sel);
    let d = ExtensionDescriptor::parse(&bytes).unwrap();
    match &d.body {
        ExtensionBody::ShDeliverySystem(b) => {
            assert_eq!(b.diversity_mode.to_u8(), 0x0D);
            assert_eq!(b.modulations.len(), 2);
            // Entry 1
            let m0 = &b.modulations[0];
            assert!(matches!(m0.modulation, ShModulationMode::Tdm { .. }));
            assert!(m0.interleaver.is_none());
            // Entry 2
            let m1 = &b.modulations[1];
            assert!(matches!(m1.modulation, ShModulationMode::Ofdm { .. }));
            match &m1.modulation {
                ShModulationMode::Ofdm {
                    bandwidth,
                    priority,
                    constellation_and_hierarchy,
                    code_rate,
                    ..
                } => {
                    assert_eq!(bandwidth.to_u8(), 4);
                    assert!(!priority);
                    assert_eq!(constellation_and_hierarchy.to_u8(), 5);
                    assert_eq!(code_rate.to_u8(), 9);
                }
                _ => unreachable!(),
            }
            assert!(matches!(m1.interleaver, Some(ShInterleaver::Type0 { .. })));
        }
        other => panic!("expected ShDeliverySystem, got {other:?}"),
    }
    round_trip(&d);
}

#[test]
fn mod_parse_sh_single_diversity_byte() {
    // Only diversity_mode byte, no modulations.
    let sel = [0xD0];
    let bytes = wrap(0x05, &sel);
    let d = ExtensionDescriptor::parse(&bytes).unwrap();
    match &d.body {
        ExtensionBody::ShDeliverySystem(b) => {
            assert_eq!(b.diversity_mode.to_u8(), 0x0D);
            assert!(b.modulations.is_empty());
        }
        other => panic!("expected ShDeliverySystem, got {other:?}"),
    }
    round_trip(&d);
}

#[test]
fn tsduck_reference_round_trip_byte_exact() {
    let vectors = [
        // service_prominence (test-115)
        (
            "7f20221a300c04d2f000092911fc465241fd47425211fa0102fb0b0c000ddeadbeef",
            ExtensionTag::ServiceProminence,
        ),
        ("7f0a22000011223344556677", ExtensionTag::ServiceProminence),
        (
            "7f0d220b700e092906fe4742520102",
            ExtensionTag::ServiceProminence,
        ),
        // image_icon (test-015)
        (
            "7f1a000cfc2b3e71c809696d6167652f706e67080123456789abcdef",
            ExtensionTag::ImageIcon,
        ),
        (
            "7f220007fe5f0a696d6167652f6a70656712687474703a2f2f666f6f2f6261722e6a7067",
            ExtensionTag::ImageIcon,
        ),
        ("7f090033fe050123456789", ExtensionTag::ImageIcon),
        // SH_delivery_system (test-015)
        ("7f02055f", ExtensionTag::ShDeliverySystem),
        (
            "7f0d05afff94ac175f68831d8d99ad",
            ExtensionTag::ShDeliverySystem,
        ),
    ];
    for (hex, ext) in vectors {
        let bytes = from_hex(hex);
        let d =
            ExtensionDescriptor::parse(&bytes).unwrap_or_else(|e| panic!("parse {hex}: {e:?}"));
        assert_eq!(d.kind(), Some(ext), "kind for {hex}");
        let mut out = vec![0u8; d.serialized_len()];
        let n = d.serialize_into(&mut out).unwrap();
        assert_eq!(out[..n], bytes[..], "byte-exact re-serialize for {hex}");
    }

    // Decoded-field spot checks (prove we interpret TSDuck's known values,
    // not merely round-trip our own): the rich image_icon and the rich
    // service_prominence from the XML sources of tests 015 / 115.
    let icon = from_hex("7f1a000cfc2b3e71c809696d6167652f706e67080123456789abcdef");
    match &ExtensionDescriptor::parse(&icon).unwrap().body {
        ExtensionBody::ImageIcon(b) => {
            assert_eq!(b.descriptor_number, 0);
            assert_eq!(b.last_descriptor_number, 12);
            assert_eq!(b.icon_id, 4);
            match &b.body {
                ImageIconBody::First(f) => {
                    assert_eq!(f.icon_transport_mode, 0);
                    let p = f.position.as_ref().unwrap();
                    assert_eq!(p.coordinate_system, 2);
                    assert_eq!(p.icon_horizontal_origin, 999);
                    assert_eq!(p.icon_vertical_origin, 456);
                    assert_eq!(f.icon_type, b"image/png");
                    assert_eq!(f.payload, &[0x01, 0x23, 0x45, 0x67, 0x89, 0xAB, 0xCD, 0xEF]);
                }
                other => panic!("expected First, got {other:?}"),
            }
        }
        other => panic!("expected ImageIcon, got {other:?}"),
    }

    let sp = from_hex("7f20221a300c04d2f000092911fc465241fd47425211fa0102fb0b0c000ddeadbeef");
    match &ExtensionDescriptor::parse(&sp).unwrap().body {
        ExtensionBody::ServiceProminence(b) => {
            assert_eq!(b.sogi_list.len(), 2);
            assert_eq!(b.sogi_list[0].sogi_priority, 12);
            assert_eq!(b.sogi_list[0].service_id, Some(1234));
            assert!(b.sogi_list[1].sogi_flag);
            assert_eq!(b.sogi_list[1].service_id, Some(2345));
            assert!(b.sogi_list[1].target_region_loop.is_some());
            assert_eq!(b.private_data, &[0xDE, 0xAD, 0xBE, 0xEF]);
        }
        other => panic!("expected ServiceProminence, got {other:?}"),
    }
}

#[test]
fn ac4_parse_ac4_full() {
    // config_flag=1, toc_flag=1; config byte de=1 cm=2; toc len 2 = [0x11,0x22]; extra 0x33
    let sel = [0xC0, 0x80 | (0x02 << 5), 0x02, 0x11, 0x22, 0x33];
    let bytes = wrap(0x15, &sel);
    let d = ExtensionDescriptor::parse(&bytes).unwrap();
    match &d.body {
        ExtensionBody::Ac4(b) => {
            assert!(b.ac4_config_flag);
            assert!(b.ac4_toc_flag);
            assert_eq!(b.ac4_dialog_enhancement_enabled, Some(true));
            assert_eq!(b.ac4_channel_mode, Some(0x02));
            assert_eq!(b.toc, Some([0x11u8, 0x22].as_slice()));
            assert_eq!(b.additional_info, &[0x33]);
        }
        other => panic!("expected Ac4, got {other:?}"),
    }
    round_trip(&d);
}

#[test]
fn ac4_parse_ac4_minimal() {
    let sel = [0x00]; // no config, no toc, no extra
    let bytes = wrap(0x15, &sel);
    let d = ExtensionDescriptor::parse(&bytes).unwrap();
    match &d.body {
        ExtensionBody::Ac4(b) => {
            assert!(!b.ac4_config_flag);
            assert!(!b.ac4_toc_flag);
            assert_eq!(b.toc, None);
            assert!(b.additional_info.is_empty());
        }
        other => panic!("expected Ac4, got {other:?}"),
    }
    round_trip(&d);
}

#[test]
fn c2_tuning_frequency_type_roundtrip() {
    for b in 0..=0xFFu8 {
        assert_eq!(C2TuningFrequencyType::from_u8(b).to_u8(), b);
    }
}

#[test]
fn c2_tuning_frequency_type_name() {
    assert_eq!(
        C2TuningFrequencyType::DataSliceTuningFrequency.name(),
        "Data Slice tuning frequency"
    );
    assert_eq!(
        C2TuningFrequencyType::C2SystemCentreFrequency.name(),
        "C2 system centre frequency"
    );
    assert_eq!(
        C2TuningFrequencyType::InitialTuningPositionStaticDataSlice.name(),
        "initial tuning position for a Static Data Slice"
    );
    assert_eq!(C2TuningFrequencyType::Reserved(3).name(), "reserved");
}

#[test]
fn active_ofdm_symbol_duration_roundtrip() {
    for b in 0..=0xFFu8 {
        assert_eq!(ActiveOfdmSymbolDuration::from_u8(b).to_u8(), b);
    }
}

#[test]
fn c2_guard_interval_roundtrip() {
    for b in 0..=0xFFu8 {
        assert_eq!(C2GuardInterval::from_u8(b).to_u8(), b);
    }
}

#[test]
fn c2_delivery_system_parse_c2_delivery_system() {
    let packed = (0x01u8 << 3) | 0x01;
    let sel = [0x05, 0x09, 0x12, 0x34, 0x56, 0x78, packed];
    let bytes = wrap(0x0D, &sel);
    let d = ExtensionDescriptor::parse(&bytes).unwrap();
    match &d.body {
        ExtensionBody::C2DeliverySystem(b) => {
            assert_eq!(b.plp_id, 0x05);
            assert_eq!(b.data_slice_id, 0x09);
            assert_eq!(b.c2_system_tuning_frequency, 0x1234_5678);
            assert_eq!(
                b.c2_system_tuning_frequency_type,
                C2TuningFrequencyType::DataSliceTuningFrequency
            );
            assert_eq!(
                b.active_ofdm_symbol_duration,
                ActiveOfdmSymbolDuration::Us597_33
            );
            assert_eq!(b.guard_interval, C2GuardInterval::G1_64);
        }
        other => panic!("expected C2DeliverySystem, got {other:?}"),
    }
    round_trip(&d);
}

#[test]
fn parse_c2_delivery_system_centre_frequency() {
    let packed = 0x01u8 << 6;
    let sel = [0x05, 0x09, 0x12, 0x34, 0x56, 0x78, packed];
    let bytes = wrap(0x0D, &sel);
    let d = ExtensionDescriptor::parse(&bytes).unwrap();
    match &d.body {
        ExtensionBody::C2DeliverySystem(b) => {
            assert_eq!(
                b.c2_system_tuning_frequency_type,
                C2TuningFrequencyType::C2SystemCentreFrequency
            );
        }
        other => panic!("expected C2DeliverySystem, got {other:?}"),
    }
    round_trip(&d);
}

#[test]
fn parse_c2_delivery_system_initial_tuning() {
    let packed = 0x02u8 << 6;
    let sel = [0x05, 0x09, 0x12, 0x34, 0x56, 0x78, packed];
    let bytes = wrap(0x0D, &sel);
    let d = ExtensionDescriptor::parse(&bytes).unwrap();
    match &d.body {
        ExtensionBody::C2DeliverySystem(b) => {
            assert_eq!(
                b.c2_system_tuning_frequency_type,
                C2TuningFrequencyType::InitialTuningPositionStaticDataSlice
            );
        }
        other => panic!("expected C2DeliverySystem, got {other:?}"),
    }
    round_trip(&d);
}

#[test]
fn parse_c2_delivery_system_reserved_values() {
    let packed = (0x03u8 << 6) | (0x07u8 << 3) | 0x07;
    let sel = [0x00, 0x00, 0x00, 0x00, 0x00, 0x00, packed];
    let bytes = wrap(0x0D, &sel);
    let d = ExtensionDescriptor::parse(&bytes).unwrap();
    match &d.body {
        ExtensionBody::C2DeliverySystem(b) => {
            assert_eq!(
                b.c2_system_tuning_frequency_type,
                C2TuningFrequencyType::Reserved(3)
            );
            assert_eq!(
                b.active_ofdm_symbol_duration,
                ActiveOfdmSymbolDuration::Reserved(7)
            );
            assert_eq!(b.guard_interval, C2GuardInterval::Reserved(7));
        }
        other => panic!("expected C2DeliverySystem, got {other:?}"),
    }
    round_trip(&d);
}

#[test]
fn image_icon_parse_image_icon_first_position_mode0() {
    // descriptor_number=0, last=3, icon_id=5
    // position_flag=1, coordinate_system=1, h_origin=100, v_origin=200
    // icon_type=[0xDE, 0xAD], mode=0 icon_data=[0x01, 0x02, 0x03]
    // byte0: (0<<4)|3 = 0x03
    // byte1: icon_id=5, reserved=0 = 0x05
    // packed: (0<<6)|(1<<5)|(1<<2) = 0x24
    // origin: h=100=0x0064, v=200=0x00C8 → b0=0x06, b1=0x40, b2=0xC8
    let sel = [
        0x03, 0x05, 0x24, 0x06, 0x40, 0xC8, 0x02, 0xDE, 0xAD, 0x03, 0x01, 0x02, 0x03,
    ];
    let bytes = wrap(0x00, &sel);
    let d = ExtensionDescriptor::parse(&bytes).unwrap();
    assert_eq!(d.kind(), Some(ExtensionTag::ImageIcon));
    match &d.body {
        ExtensionBody::ImageIcon(b) => {
            assert_eq!(b.descriptor_number, 0);
            assert_eq!(b.last_descriptor_number, 3);
            assert_eq!(b.icon_id, 5);
            match &b.body {
                ImageIconBody::First(f) => {
                    assert_eq!(f.icon_transport_mode, 0);
                    assert!(f.position.is_some());
                    let pos = f.position.as_ref().unwrap();
                    assert_eq!(pos.coordinate_system, 1);
                    assert_eq!(pos.icon_horizontal_origin, 100);
                    assert_eq!(pos.icon_vertical_origin, 200);
                    assert_eq!(f.icon_type, &[0xDE, 0xAD]);
                    assert_eq!(f.payload, &[0x01, 0x02, 0x03]);
                }
                other => panic!("expected First, got {other:?}"),
            }
        }
        other => panic!("expected ImageIcon, got {other:?}"),
    }
    round_trip(&d);
}

#[test]
fn image_icon_parse_image_icon_first_no_position_mode1() {
    // descriptor_number=0, last=1, icon_id=7
    // position_flag=0, mode=1 (URL), icon_type=[0xAB], url=b"http"
    // byte0: (0<<4)|1 = 0x01; byte1: 0x07
    // packed: (1<<6)|(0<<5) = 0x40
    let sel = [0x01, 0x07, 0x40, 0x01, 0xAB, 0x04, b'h', b't', b't', b'p'];
    let bytes = wrap(0x00, &sel);
    let d = ExtensionDescriptor::parse(&bytes).unwrap();
    match &d.body {
        ExtensionBody::ImageIcon(b) => match &b.body {
            ImageIconBody::First(f) => {
                assert_eq!(f.icon_transport_mode, 1);
                assert!(f.position.is_none());
                assert_eq!(f.icon_type, &[0xAB]);
                assert_eq!(f.payload, b"http");
            }
            other => panic!("expected First, got {other:?}"),
        },
        other => panic!("expected ImageIcon, got {other:?}"),
    }
    round_trip(&d);
}

#[test]
fn image_icon_parse_image_icon_first_mode2_empty_payload() {
    // descriptor_number=0, last=0, icon_id=0, mode=2 (reserved),
    // position_flag=0, icon_type=0 bytes, empty payload
    // byte0: 0x00; byte1: 0x00; packed: (2<<6) = 0x80
    let sel = [0x00, 0x00, 0x80, 0x00];
    let bytes = wrap(0x00, &sel);
    let d = ExtensionDescriptor::parse(&bytes).unwrap();
    match &d.body {
        ExtensionBody::ImageIcon(b) => match &b.body {
            ImageIconBody::First(f) => {
                assert_eq!(f.icon_transport_mode, 2);
                assert!(f.position.is_none());
                assert!(f.icon_type.is_empty());
                assert!(f.payload.is_empty());
            }
            other => panic!("expected First, got {other:?}"),
        },
        other => panic!("expected ImageIcon, got {other:?}"),
    }
    round_trip(&d);
}

#[test]
fn image_icon_parse_image_icon_continuation() {
    // descriptor_number=2, last=3, icon_id=1
    // icon_data=[0xAA, 0xBB, 0xCC, 0xDD]
    // byte0: (2<<4)|3 = 0x23; byte1: 0x01; length=4
    let sel = [0x23, 0x01, 0x04, 0xAA, 0xBB, 0xCC, 0xDD];
    let bytes = wrap(0x00, &sel);
    let d = ExtensionDescriptor::parse(&bytes).unwrap();
    assert_eq!(d.kind(), Some(ExtensionTag::ImageIcon));
    match &d.body {
        ExtensionBody::ImageIcon(b) => {
            assert_eq!(b.descriptor_number, 2);
            assert_eq!(b.last_descriptor_number, 3);
            assert_eq!(b.icon_id, 1);
            match &b.body {
                ImageIconBody::Continuation { icon_data } => {
                    assert_eq!(icon_data, &[0xAA, 0xBB, 0xCC, 0xDD]);
                }
                other => panic!("expected Continuation, got {other:?}"),
            }
        }
        other => panic!("expected ImageIcon, got {other:?}"),
    }
    round_trip(&d);
}

#[test]
fn image_icon_parse_image_icon_rejects_trailing_bytes() {
    // First segment with an extra trailing byte.
    // mode=2, one extra byte 0xFF after the complete parse.
    let sel = [0x00, 0x00, 0x80, 0x00, 0xFF];
    let bytes = wrap(0x00, &sel);
    assert!(matches!(
        ExtensionDescriptor::parse(&bytes).unwrap_err(),
        Error::InvalidDescriptor {
            tag: TAG,
            ..
        }
    ));
}

#[test]
fn image_icon_parse_image_icon_rejects_truncated_continuation() {
    // Continuation with length=5 but only 3 data bytes.
    let sel = [0x23, 0x01, 0x05, 0xAA, 0xBB, 0xCC];
    let bytes = wrap(0x00, &sel);
    assert!(matches!(
        ExtensionDescriptor::parse(&bytes).unwrap_err(),
        Error::InvalidDescriptor {
            tag: TAG,
            ..
        }
    ));
}

#[test]
fn message_parse_message() {
    let sel = [0x07, b'e', b'n', b'g', b'H', b'i'];
    let bytes = wrap(0x08, &sel);
    let d = ExtensionDescriptor::parse(&bytes).unwrap();
    match &d.body {
        ExtensionBody::Message(b) => {
            assert_eq!(b.message_id, 0x07);
            assert_eq!(b.iso_639_language_code, LangCode(*b"eng"));
            assert_eq!(b.text.raw(), b"Hi");
        }
        other => panic!("expected Message, got {other:?}"),
    }
    round_trip(&d);
}

#[test]
fn service_relocated_parse_service_relocated() {
    let sel = [0x12, 0x34, 0x56, 0x78, 0x9A, 0xBC];
    let bytes = wrap(0x0B, &sel);
    let d = ExtensionDescriptor::parse(&bytes).unwrap();
    assert_eq!(d.kind(), Some(ExtensionTag::ServiceRelocated));
    match &d.body {
        ExtensionBody::ServiceRelocated(b) => {
            assert_eq!(b.old_original_network_id, 0x1234);
            assert_eq!(b.old_transport_stream_id, 0x5678);
            assert_eq!(b.old_service_id, 0x9ABC);
        }
        other => panic!("expected ServiceRelocated, got {other:?}"),
    }
    round_trip(&d);
}

#[test]
fn sh_diversity_mode_roundtrip() {
    for b in 0..=0xFFu8 {
        assert_eq!(ShDiversityMode::from_u8(b).to_u8(), b);
    }
}

#[test]
fn sh_polarization_roundtrip() {
    for b in 0..=0xFFu8 {
        assert_eq!(ShPolarization::from_u8(b).to_u8(), b);
    }
}

#[test]
fn sh_roll_off_roundtrip() {
    for b in 0..=0xFFu8 {
        assert_eq!(ShRollOff::from_u8(b).to_u8(), b);
    }
}

#[test]
fn sh_modulation_mode_type_roundtrip() {
    for b in 0..=0xFFu8 {
        assert_eq!(ShModulationModeType::from_u8(b).to_u8(), b);
    }
}

#[test]
fn sh_code_rate_roundtrip() {
    for b in 0..=0xFFu8 {
        assert_eq!(ShCodeRate::from_u8(b).to_u8(), b);
    }
}

#[test]
fn sh_bandwidth_roundtrip() {
    for b in 0..=0xFFu8 {
        assert_eq!(ShBandwidth::from_u8(b).to_u8(), b);
    }
}

#[test]
fn sh_constellation_and_hierarchy_roundtrip() {
    for b in 0..=0xFFu8 {
        assert_eq!(ShConstellationAndHierarchy::from_u8(b).to_u8(), b);
    }
}

#[test]
fn sh_guard_interval_roundtrip() {
    for b in 0..=0xFFu8 {
        assert_eq!(ShGuardInterval::from_u8(b).to_u8(), b);
    }
}

#[test]
fn sh_transmission_mode_roundtrip() {
    for b in 0..=0xFFu8 {
        assert_eq!(ShTransmissionMode::from_u8(b).to_u8(), b);
    }
}

#[test]
fn sh_enum_names() {
    assert_eq!(ShPolarization::LinearHorizontal.name(), "linear horizontal");
    assert_eq!(ShPolarization::CircularRight.name(), "circular right");
    assert_eq!(ShRollOff::Alpha035.name(), "α = 0.35");
    assert_eq!(ShModulationModeType::Psk8.name(), "8PSK");
    assert_eq!(ShBandwidth::Mhz1_7.name(), "1.7 MHz");
    assert_eq!(
        ShConstellationAndHierarchy::Qam16Alpha2.name(),
        "16QAM, α = 2"
    );
    assert_eq!(ShGuardInterval::G1_8.name(), "1/8");
    assert_eq!(ShTransmissionMode::Mode4k.name(), "4k mode");
    assert_eq!(ShPolarization::Reserved(5).name(), "reserved");
}

#[test]
fn sh_delivery_system_parse_sh_tdm_no_interleaver() {
    let sel = [0xD0, 0x00, 0x9E, 0xAA];
    let bytes = wrap(0x05, &sel);
    let d = ExtensionDescriptor::parse(&bytes).unwrap();
    assert_eq!(d.kind(), Some(ExtensionTag::ShDeliverySystem));
    match &d.body {
        ExtensionBody::ShDeliverySystem(b) => {
            assert_eq!(b.diversity_mode, ShDiversityMode::FecAtLink);
            assert_eq!(b.modulations.len(), 1);
            let m = &b.modulations[0];
            assert!(m.interleaver.is_none());
            match &m.modulation {
                ShModulationMode::Tdm {
                    polarization,
                    roll_off,
                    modulation_mode,
                    code_rate,
                    symbol_rate,
                } => {
                    assert_eq!(*polarization, ShPolarization::CircularLeft);
                    assert_eq!(*roll_off, ShRollOff::Alpha025);
                    assert_eq!(*modulation_mode, ShModulationModeType::Reserved(3));
                    assert_eq!(*code_rate, ShCodeRate::Rate2_3Standard);
                    assert_eq!(*symbol_rate, 21);
                }
                other => panic!("expected Tdm, got {other:?}"),
            }
        }
        other => panic!("expected ShDeliverySystem, got {other:?}"),
    }
    round_trip(&d);
}

#[test]
fn sh_delivery_system_parse_sh_ofdm_interleaver_type1() {
    let sel = [0x50, 0xE0, 0x35, 0x7D, 0x54];
    let bytes = wrap(0x05, &sel);
    let d = ExtensionDescriptor::parse(&bytes).unwrap();
    match &d.body {
        ExtensionBody::ShDeliverySystem(b) => {
            assert_eq!(b.diversity_mode, ShDiversityMode::Reserved(5));
            assert_eq!(b.modulations.len(), 1);
            let m = &b.modulations[0];
            match &m.modulation {
                ShModulationMode::Ofdm {
                    bandwidth,
                    priority,
                    constellation_and_hierarchy,
                    code_rate,
                    guard_interval,
                    transmission_mode,
                    common_frequency,
                } => {
                    assert_eq!(*bandwidth, ShBandwidth::Mhz7);
                    assert!(*priority);
                    assert_eq!(
                        *constellation_and_hierarchy,
                        ShConstellationAndHierarchy::Qam16Alpha1
                    );
                    assert_eq!(*code_rate, ShCodeRate::Rate2_3Complementary);
                    assert_eq!(*guard_interval, ShGuardInterval::G1_4);
                    assert_eq!(*transmission_mode, ShTransmissionMode::Mode4k);
                    assert!(*common_frequency);
                }
                other => panic!("expected Ofdm, got {other:?}"),
            }
            match &m.interleaver {
                Some(ShInterleaver::Type1 { common_multiplier }) => {
                    assert_eq!(*common_multiplier, 21);
                }
                other => panic!("expected Type1 interleaver, got {other:?}"),
            }
        }
        other => panic!("expected ShDeliverySystem, got {other:?}"),
    }
    round_trip(&d);
}

#[test]
fn sh_delivery_system_parse_sh_tdm_interleaver_type0() {
    let sel = [0x80, 0x40, 0x35, 0x54, 0x29, 0x47, 0x99, 0x28];
    let bytes = wrap(0x05, &sel);
    let d = ExtensionDescriptor::parse(&bytes).unwrap();
    match &d.body {
        ExtensionBody::ShDeliverySystem(b) => {
            assert_eq!(b.diversity_mode, ShDiversityMode::PaTsOnly);
            assert_eq!(b.modulations.len(), 1);
            let m = &b.modulations[0];
            match &m.modulation {
                ShModulationMode::Tdm {
                    polarization,
                    roll_off,
                    modulation_mode,
                    code_rate,
                    symbol_rate,
                } => {
                    assert_eq!(*polarization, ShPolarization::LinearHorizontal);
                    assert_eq!(*roll_off, ShRollOff::Reserved(3));
                    assert_eq!(*modulation_mode, ShModulationModeType::Psk8);
                    assert_eq!(*code_rate, ShCodeRate::Rate1_3Complementary);
                    assert_eq!(*symbol_rate, 10);
                }
                other => panic!("expected Tdm, got {other:?}"),
            }
            match &m.interleaver {
                Some(ShInterleaver::Type0 {
                    common_multiplier,
                    nof_late_taps,
                    nof_slices,
                    slice_distance,
                    non_late_increments,
                }) => {
                    assert_eq!(*common_multiplier, 10);
                    assert_eq!(*nof_late_taps, 20);
                    assert_eq!(*nof_slices, 30);
                    assert_eq!(*slice_distance, 100);
                    assert_eq!(*non_late_increments, 40);
                }
                other => panic!("expected Type0 interleaver, got {other:?}"),
            }
        }
        other => panic!("expected ShDeliverySystem, got {other:?}"),
    }
    round_trip(&d);
}

#[test]
fn sh_delivery_system_parse_sh_two_entries_mixed() {
    let sel = [
        0xD0, 0x00, 0x9E, 0xAA, 0xC0, 0x8B, 0x2A, 0x3D, 0x98, 0xCC, 0xB7,
    ];
    let bytes = wrap(0x05, &sel);
    let d = ExtensionDescriptor::parse(&bytes).unwrap();
    match &d.body {
        ExtensionBody::ShDeliverySystem(b) => {
            assert_eq!(b.diversity_mode, ShDiversityMode::FecAtLink);
            assert_eq!(b.modulations.len(), 2);
            let m0 = &b.modulations[0];
            assert!(matches!(m0.modulation, ShModulationMode::Tdm { .. }));
            assert!(m0.interleaver.is_none());
            let m1 = &b.modulations[1];
            assert!(matches!(m1.modulation, ShModulationMode::Ofdm { .. }));
            match &m1.modulation {
                ShModulationMode::Ofdm {
                    bandwidth,
                    priority,
                    constellation_and_hierarchy,
                    code_rate,
                    ..
                } => {
                    assert_eq!(*bandwidth, ShBandwidth::Mhz1_7);
                    assert!(!priority);
                    assert_eq!(
                        *constellation_and_hierarchy,
                        ShConstellationAndHierarchy::Reserved(5)
                    );
                    assert_eq!(*code_rate, ShCodeRate::Rate1_2Complementary);
                }
                _ => unreachable!(),
            }
            assert!(matches!(m1.interleaver, Some(ShInterleaver::Type0 { .. })));
        }
        other => panic!("expected ShDeliverySystem, got {other:?}"),
    }
    round_trip(&d);
}

#[test]
fn sh_delivery_system_parse_sh_rejects_partial_entry() {
    let sel = [0xD0, 0x00, 0x9E, 0xAA, 0x00];
    let bytes = wrap(0x05, &sel);
    assert!(matches!(
        ExtensionDescriptor::parse(&bytes).unwrap_err(),
        Error::BufferTooShort { .. }
    ));
}

#[test]
fn sh_delivery_system_parse_sh_single_diversity_byte() {
    let sel = [0xD0];
    let bytes = wrap(0x05, &sel);
    let d = ExtensionDescriptor::parse(&bytes).unwrap();
    match &d.body {
        ExtensionBody::ShDeliverySystem(b) => {
            assert_eq!(b.diversity_mode, ShDiversityMode::FecAtLink);
            assert!(b.modulations.is_empty());
        }
        other => panic!("expected ShDeliverySystem, got {other:?}"),
    }
    round_trip(&d);
}

#[test]
fn sh_delivery_system_parse_sh_rejects_empty_selector() {
    let bytes = wrap(0x05, &[]);
    assert!(matches!(
        ExtensionDescriptor::parse(&bytes).unwrap_err(),
        Error::BufferTooShort { .. }
    ));
}

#[test]
fn tsduck_sh_round_trips() {
    let vectors: [(&str, u8); 2] =
        [("7f02055f", 0x05), ("7f0d05afff94ac175f68831d8d99ad", 0x05)];
    for (hex, _ext) in vectors {
        let bytes = from_hex(hex);
        let d =
            ExtensionDescriptor::parse(&bytes).unwrap_or_else(|e| panic!("parse {hex}: {e:?}"));
        let mut out = vec![0u8; d.serialized_len()];
        let n = d.serialize_into(&mut out).unwrap();
        assert_eq!(out[..n], bytes[..], "byte-exact re-serialize for {hex}");
    }
}

#[test]
fn t2mi_parse_t2mi_round_trip() {
    // t2mi_stream_id=5, num_t2mi_streams_minus_one=2,
    // pcr_iscr_common_clock_flag=true, 2-byte reserved tail.
    let sel = [0x05, 0x02, 0x01, 0x00, 0x00];
    let bytes = wrap(0x11, &sel);
    let d = ExtensionDescriptor::parse(&bytes).unwrap();
    assert_eq!(d.kind(), Some(ExtensionTag::T2mi));
    match &d.body {
        ExtensionBody::T2mi(b) => {
            assert_eq!(b.t2mi_stream_id, 5);
            assert_eq!(b.num_t2mi_streams_minus_one, 2);
            assert!(b.pcr_iscr_common_clock_flag);
            assert_eq!(b.reserved_tail, &[0x00, 0x00]);
        }
        other => panic!("expected T2mi, got {other:?}"),
    }
    // parse → serialize → parse round-trip (byte-identical)
    round_trip(&d);
    // Also verify that serialize → parse round-trips the flag false variant
    let sel2 = [0x07, 0x00, 0x00, 0xFF];
    let bytes2 = wrap(0x11, &sel2);
    let d2 = ExtensionDescriptor::parse(&bytes2).unwrap();
    round_trip(&d2);
}

#[test]
fn t2mi_parse_t2mi_minimal() {
    // Only the 3 mandatory bytes, no reserved tail.
    let sel = [0x01, 0x03, 0x01];
    let bytes = wrap(0x11, &sel);
    let d = ExtensionDescriptor::parse(&bytes).unwrap();
    match &d.body {
        ExtensionBody::T2mi(b) => {
            assert_eq!(b.t2mi_stream_id, 1);
            assert_eq!(b.num_t2mi_streams_minus_one, 3);
            assert!(b.pcr_iscr_common_clock_flag);
            assert!(b.reserved_tail.is_empty());
        }
        other => panic!("expected T2mi, got {other:?}"),
    }
    round_trip(&d);
}

#[test]
fn t2mi_parse_t2mi_rejects_truncated() {
    let sel = [0xAA, 0xBB]; // only 2 bytes, need >= 3
    let bytes = wrap(0x11, &sel);
    assert!(matches!(
        ExtensionDescriptor::parse(&bytes).unwrap_err(),
        Error::BufferTooShort { .. }
    ));
}

#[test]
fn parse_target_region_structured() {
    let sel = [b'g', b'b', b'r', 0xF9, 0x12];
    let bytes = wrap(0x09, &sel);
    let d = ExtensionDescriptor::parse(&bytes).unwrap();
    match &d.body {
        ExtensionBody::TargetRegion(b) => {
            assert_eq!(b.country_code, LangCode(*b"gbr"));
            assert_eq!(b.regions.len(), 1);
            assert_eq!(b.regions[0].country_code, None);
            assert_eq!(
                b.regions[0].region_codes,
                RegionCodes::Primary {
                    primary_region_code: 0x12
                }
            );
        }
        other => panic!("expected TargetRegion, got {other:?}"),
    }
    round_trip(&d);
}

#[test]
fn target_region_tsduck_empty() {
    let bytes = from_hex("7f0409666f6f");
    let d = ExtensionDescriptor::parse(&bytes).unwrap();
    match &d.body {
        ExtensionBody::TargetRegion(b) => {
            assert_eq!(b.country_code, LangCode(*b"foo"));
            assert!(b.regions.is_empty());
        }
        other => panic!("expected TargetRegion, got {other:?}"),
    }
    let mut buf = vec![0u8; d.serialized_len()];
    d.serialize_into(&mut buf).unwrap();
    assert_eq!(buf, bytes);
}

#[test]
fn target_region_tsduck_full() {
    let bytes = from_hex("7f1509626172f8fd666f6f12fa3456ff616263789abcde");
    let d = ExtensionDescriptor::parse(&bytes).unwrap();
    match &d.body {
        ExtensionBody::TargetRegion(b) => {
            assert_eq!(b.country_code, LangCode(*b"bar"));
            assert_eq!(b.regions.len(), 4);
            // [0] cc=None, RegionCodes::NoRegion
            assert_eq!(b.regions[0].country_code, None);
            assert_eq!(b.regions[0].region_codes, RegionCodes::NoRegion);
            // [1] cc=Some("foo"), Primary{primary:0x12}
            assert_eq!(b.regions[1].country_code, Some(LangCode(*b"foo")));
            assert_eq!(
                b.regions[1].region_codes,
                RegionCodes::Primary {
                    primary_region_code: 0x12
                }
            );
            // [2] cc=None, PrimarySecondary{primary:0x34,secondary:0x56}
            assert_eq!(b.regions[2].country_code, None);
            assert_eq!(
                b.regions[2].region_codes,
                RegionCodes::PrimarySecondary {
                    primary_region_code: 0x34,
                    secondary_region_code: 0x56,
                }
            );
            // [3] cc=Some("abc"), Full{primary:0x78,secondary:0x9A,tertiary:0xBCDE}
            assert_eq!(b.regions[3].country_code, Some(LangCode(*b"abc")));
            assert_eq!(
                b.regions[3].region_codes,
                RegionCodes::Full {
                    primary_region_code: 0x78,
                    secondary_region_code: 0x9A,
                    tertiary_region_code: 0xBCDE,
                }
            );
        }
        other => panic!("expected TargetRegion, got {other:?}"),
    }
    let mut buf = vec![0u8; d.serialized_len()];
    d.serialize_into(&mut buf).unwrap();
    assert_eq!(buf, bytes);
}

#[test]
fn parse_target_region_name_structured() {
    let sel = [b'g', b'b', b'r', b'e', b'n', b'g', 0x42, b'H', b'i', 0x12];
    let bytes = wrap(0x0A, &sel);
    let d = ExtensionDescriptor::parse(&bytes).unwrap();
    match &d.body {
        ExtensionBody::TargetRegionName(b) => {
            assert_eq!(b.country_code, LangCode(*b"gbr"));
            assert_eq!(b.iso_639_language_code, LangCode(*b"eng"));
            assert_eq!(b.regions.len(), 1);
            assert_eq!(b.regions[0].region_depth, 1);
            assert_eq!(b.regions[0].region_name.raw(), b"Hi");
            assert_eq!(b.regions[0].primary_region_code, 0x12);
            assert_eq!(b.regions[0].secondary_region_code, None);
            assert_eq!(b.regions[0].tertiary_region_code, None);
        }
        other => panic!("expected TargetRegionName, got {other:?}"),
    }
    round_trip(&d);
}

#[test]
fn target_region_name_tsduck_empty() {
    let bytes = from_hex("7f070a666f6f626172");
    let d = ExtensionDescriptor::parse(&bytes).unwrap();
    match &d.body {
        ExtensionBody::TargetRegionName(b) => {
            assert_eq!(b.country_code, LangCode(*b"foo"));
            assert_eq!(b.iso_639_language_code, LangCode(*b"bar"));
            assert!(b.regions.is_empty());
        }
        other => panic!("expected TargetRegionName, got {other:?}"),
    }
    let mut buf = vec![0u8; d.serialized_len()];
    d.serialize_into(&mut buf).unwrap();
    assert_eq!(buf, bytes);
}

#[test]
fn target_region_name_tsduck_full() {
    let bytes = from_hex(
        "7f260a4142434445464c726567696f6e20666f6f203112cc726567696f6e2062617220323456789a",
    );
    let d = ExtensionDescriptor::parse(&bytes).unwrap();
    match &d.body {
        ExtensionBody::TargetRegionName(b) => {
            assert_eq!(b.country_code, LangCode(*b"ABC"));
            assert_eq!(b.iso_639_language_code, LangCode(*b"DEF"));
            assert_eq!(b.regions.len(), 2);
            // [0] region_depth=1, region_name="region foo 1", primary=0x12
            assert_eq!(b.regions[0].region_depth, 1);
            assert_eq!(b.regions[0].region_name.raw(), b"region foo 1");
            assert_eq!(b.regions[0].primary_region_code, 0x12);
            assert_eq!(b.regions[0].secondary_region_code, None);
            assert_eq!(b.regions[0].tertiary_region_code, None);
            // [1] region_depth=3, region_name="region bar 2", primary=0x34, sec=0x56, tert=0x789A
            assert_eq!(b.regions[1].region_depth, 3);
            assert_eq!(b.regions[1].region_name.raw(), b"region bar 2");
            assert_eq!(b.regions[1].primary_region_code, 0x34);
            assert_eq!(b.regions[1].secondary_region_code, Some(0x56));
            assert_eq!(b.regions[1].tertiary_region_code, Some(0x789A));
        }
        other => panic!("expected TargetRegionName, got {other:?}"),
    }
    let mut buf = vec![0u8; d.serialized_len()];
    d.serialize_into(&mut buf).unwrap();
    assert_eq!(buf, bytes);
}

#[test]
fn parse_full_ttml_subtitling() {
    // iso_639 = "eng"
    // subtitle_purpose = 0x10, tts_suitability = 0x01
    let b3 = (0x10 << 2) | 0x01; // = 0x41
                                 // font_flag=1, qualifier_flag=1, reserved_zero=0, profile_count=2
    let b4 = 0x80 | 0x40 | 0x02; // = 0xC2
    let sel = [
        b'e', b'n', b'g', // iso_639
        b3,   // packed: subtitle_purpose, tts_suitability
        b4,   // packed: font_flag, qual_flag, count
        0x00, 0x02, // 2 profile bytes
        0xDE, 0xAD, 0xBE, 0xEF, // qualifier u32 be
        3,    // font_count
        0x10, 0x20, 0x30, // 3 font_ids (high bit already zero)
        5,    // text_length
        b'h', b'e', b'l', b'l', b'o', // text
        0xFF, 0xFE, // reserved_tail
    ];
    let bytes = wrap(0x20, &sel);
    let d = ExtensionDescriptor::parse(&bytes).unwrap();
    match &d.body {
        ExtensionBody::TtmlSubtitling(b) => {
            assert_eq!(b.iso_639_language_code, LangCode(*b"eng"));
            assert_eq!(b.subtitle_purpose, 0x10);
            assert_eq!(b.tts_suitability, 0x01);
            assert_eq!(b.dvb_ttml_profiles, &[0x00, 0x02]);
            assert_eq!(b.qualifier, Some(0xDEAD_BEEF));
            assert_eq!(b.font_ids.as_deref(), Some(&[0x10, 0x20, 0x30][..]));
            assert_eq!(b.text.decode(), "hello");
            assert_eq!(b.text.raw(), b"hello");
            assert_eq!(b.reserved_tail, &[0xFF, 0xFE]);
        }
        other => panic!("expected TtmlSubtitling, got {other:?}"),
    }
    round_trip(&d);
}

#[test]
fn parse_minimal_ttml_subtitling() {
    let sel = [
        b'f', b'r', b'e', // iso_639
        0x00, // subtitle_purpose=0, tts_suitability=0
        0x00, // font_flag=0, qual_flag=0, profile_count=0
        3,    // text_length
        b'f', b'o', b'o', // text
    ];
    let bytes = wrap(0x20, &sel);
    let d = ExtensionDescriptor::parse(&bytes).unwrap();
    match &d.body {
        ExtensionBody::TtmlSubtitling(b) => {
            assert_eq!(b.iso_639_language_code, LangCode(*b"fre"));
            assert_eq!(b.subtitle_purpose, 0);
            assert_eq!(b.tts_suitability, 0);
            assert!(b.dvb_ttml_profiles.is_empty());
            assert_eq!(b.qualifier, None);
            assert_eq!(b.font_ids, None);
            assert_eq!(b.text.decode(), "foo");
            assert_eq!(b.text.raw(), b"foo");
            assert!(b.reserved_tail.is_empty());
        }
        other => panic!("expected TtmlSubtitling, got {other:?}"),
    }
    round_trip(&d);
}

#[test]
fn parse_rejects_truncated_font_loop() {
    let sel = [
        b'e', b'n', b'g', // iso_639
        0x00, // subtitle_purpose=0, tts_suitability=0
        0x80, // font_flag=1, qual_flag=0, profile_count=0
        3,    // font_count = 3
        0x10, // only 1 byte — need 3
    ];
    let bytes = wrap(0x20, &sel);
    let result = ExtensionDescriptor::parse(&bytes);
    assert!(
        matches!(result, Err(Error::BufferTooShort { .. })),
        "expected BufferTooShort, got {result:?}"
    );
}

#[test]
fn parse_rejects_truncated_before_text_length() {
    // font_flag=0, qual_flag=0, profile_count=0 → prefix only, no room for text_length
    let sel = [b'e', b'n', b'g', 0x00, 0x00];
    let bytes = wrap(0x20, &sel);
    let result = ExtensionDescriptor::parse(&bytes);
    assert!(
        matches!(result, Err(Error::BufferTooShort { .. })),
        "expected BufferTooShort, got {result:?}"
    );
}

#[test]
fn parse_rejects_header_too_short() {
    let sel = [b'e', b'n']; // only 2 bytes
    let bytes = wrap(0x20, &sel);
    let result = ExtensionDescriptor::parse(&bytes);
    assert!(
        matches!(result, Err(Error::BufferTooShort { .. })),
        "expected BufferTooShort, got {result:?}"
    );
}

#[test]
fn uri_linkage_parse_uri_linkage_with_polling() {
    let uri = b"http://x";
    let mut sel = vec![0x00, uri.len() as u8];
    sel.extend_from_slice(uri);
    sel.extend_from_slice(&0x1234u16.to_be_bytes());
    sel.push(0xFE); // private
    let bytes = wrap(0x13, &sel);
    let d = ExtensionDescriptor::parse(&bytes).unwrap();
    match &d.body {
        ExtensionBody::UriLinkage(b) => {
            assert_eq!(b.uri_linkage_type, UriLinkageType::OnlineSdt);
            assert_eq!(b.uri.raw(), uri);
            assert_eq!(b.uri.decode(), "http://x");
            assert_eq!(b.min_polling_interval, Some(0x1234));
            assert_eq!(b.private_data, &[0xFE]);
        }
        other => panic!("expected UriLinkage, got {other:?}"),
    }
    round_trip(&d);
}

#[test]
fn uri_linkage_parse_uri_linkage_no_polling() {
    // type 0x02 ⇒ no min_polling_interval
    let uri = b"dvb:";
    let mut sel = vec![0x02, uri.len() as u8];
    sel.extend_from_slice(uri);
    let bytes = wrap(0x13, &sel);
    let d = ExtensionDescriptor::parse(&bytes).unwrap();
    match &d.body {
        ExtensionBody::UriLinkage(b) => {
            assert_eq!(b.min_polling_interval, None);
            assert_eq!(b.uri.decode(), "dvb:");
            assert!(b.private_data.is_empty());
        }
        other => panic!("expected UriLinkage, got {other:?}"),
    }
    round_trip(&d);
}

#[test]
fn uri_linkage_parse_uri_linkage_rejects_overrun() {
    let sel = [0x02, 0x10, 0xAA]; // uri_length 16 but 1 byte present
    let bytes = wrap(0x13, &sel);
    assert!(matches!(
        ExtensionDescriptor::parse(&bytes).unwrap_err(),
        Error::BufferTooShort { .. }
    ));
}

#[test]
fn uri_linkage_type_roundtrip() {
    for b in 0u8..=0xFF {
        assert_eq!(UriLinkageType::from_u8(b).to_u8(), b);
    }
}

#[test]
fn uri_linkage_type_name() {
    assert_eq!(
        UriLinkageType::OnlineSdt.name(),
        "online SDT (Service Discovery & Selection)"
    );
    assert_eq!(UriLinkageType::DvbIptvSds.name(), "DVB-IPTV SD&S");
    assert_eq!(
        UriLinkageType::MaterialResolutionServer.name(),
        "material resolution server"
    );
    assert_eq!(UriLinkageType::DvbIServiceList.name(), "DVB-I service list");
    assert_eq!(
        UriLinkageType::Other(0xFF).name(),
        "other (TS 101 162 registry)"
    );
}

#[test]
fn uri_linkage_type_has_polling_interval() {
    assert!(UriLinkageType::OnlineSdt.has_polling_interval());
    assert!(UriLinkageType::DvbIptvSds.has_polling_interval());
    assert!(!UriLinkageType::MaterialResolutionServer.has_polling_interval());
    assert!(!UriLinkageType::DvbIServiceList.has_polling_interval());
    assert!(!UriLinkageType::Other(0x42).has_polling_interval());
}

#[test]
fn video_depth_range_parse_video_depth_range_two_entries_round_trip() {
    // Two depth ranges in one selector:
    //   entry 1: range_type 0x00, range_length 3, disparity max=100 min=-50
    //   entry 2: range_type 0x05, range_length 2, raw [0xAA, 0xBB]
    // max=100 -> 0x0074 bits -> sext12=100; min=-50 -> 0x0032 bits,
    // two's complement of 50 is 0x0FCE, sext12 -> -50.
    let max_val: i16 = 100;
    let min_val: i16 = -50;
    let max_b = max_val as u16 & 0x0FFF; // 0x0064
    let min_b = min_val as u16 & 0x0FFF; // 0x0FCE
    let sel = [
        0x00,
        0x03,
        (max_b >> 4) as u8,
        (((max_b & 0x0F) << 4) | ((min_b >> 8) & 0x0F)) as u8,
        min_b as u8,
        0x05,
        0x02,
        0xAA,
        0xBB,
    ];
    let bytes = wrap(0x10, &sel);
    let d = ExtensionDescriptor::parse(&bytes).unwrap();
    assert_eq!(d.kind(), Some(ExtensionTag::VideoDepthRange));
    match &d.body {
        ExtensionBody::VideoDepthRange(b) => {
            assert_eq!(b.ranges.len(), 2);
            assert_eq!(b.ranges[0].range_type, 0x00);
            match &b.ranges[0].body {
                DepthRangeBody::ProductionDisparityHint { max, min } => {
                    assert_eq!(*max, 100);
                    assert_eq!(*min, -50);
                }
                _ => panic!("expected ProductionDisparityHint"),
            }
            assert_eq!(b.ranges[1].range_type, 0x05);
            match &b.ranges[1].body {
                DepthRangeBody::Other(s) => assert_eq!(s, &[0xAA, 0xBB]),
                _ => panic!("expected Other"),
            }
        }
        other => panic!("expected VideoDepthRange, got {other:?}"),
    }
    // parse → serialize → parse round-trip (byte-identical)
    round_trip(&d);
}

#[test]
fn video_depth_range_parse_video_depth_range_negative_edge_round_trip() {
    // ProductionDisparityHint with max=-1 (0x0FFF), min=0
    let max_val: i16 = -1;
    let min_val: i16 = 0;
    let max_b = max_val as u16 & 0x0FFF;
    let min_b = min_val as u16 & 0x0FFF;
    let sel = [
        0x00,
        0x03,
        (max_b >> 4) as u8,
        (((max_b & 0x0F) << 4) | ((min_b >> 8) & 0x0F)) as u8,
        min_b as u8,
    ];
    let bytes = wrap(0x10, &sel);
    let d = ExtensionDescriptor::parse(&bytes).unwrap();
    match &d.body {
        ExtensionBody::VideoDepthRange(b) => {
            assert_eq!(b.ranges.len(), 1);
            match &b.ranges[0].body {
                DepthRangeBody::ProductionDisparityHint { max, min } => {
                    assert_eq!(*max, -1);
                    assert_eq!(*min, 0);
                }
                _ => panic!("expected ProductionDisparityHint"),
            }
        }
        other => panic!("expected VideoDepthRange, got {other:?}"),
    }
    round_trip(&d);
}

#[test]
fn video_depth_range_parse_video_depth_range_multi_region_sei_round_trip() {
    // range_type 0x01 with empty body
    let sel = [0x01, 0x00, 0x01, 0x00];
    let bytes = wrap(0x10, &sel);
    let d = ExtensionDescriptor::parse(&bytes).unwrap();
    match &d.body {
        ExtensionBody::VideoDepthRange(b) => {
            assert_eq!(b.ranges.len(), 2);
            assert!(matches!(b.ranges[0].body, DepthRangeBody::MultiRegionSei));
            assert!(matches!(b.ranges[1].body, DepthRangeBody::MultiRegionSei));
        }
        other => panic!("expected VideoDepthRange, got {other:?}"),
    }
    round_trip(&d);
}

#[test]
fn video_depth_range_parse_video_depth_range_empty_selector() {
    let bytes = wrap(0x10, &[]);
    let d = ExtensionDescriptor::parse(&bytes).unwrap();
    match &d.body {
        ExtensionBody::VideoDepthRange(b) => {
            assert!(b.ranges.is_empty());
        }
        other => panic!("expected VideoDepthRange, got {other:?}"),
    }
    round_trip(&d);
}

#[test]
fn video_depth_range_parse_video_depth_range_rejects_truncated() {
    // Only range_type byte, no range_length
    let sel = [0x00];
    let bytes = wrap(0x10, &sel);
    assert!(matches!(
        ExtensionDescriptor::parse(&bytes).unwrap_err(),
        Error::BufferTooShort { .. }
    ));
}

#[test]
fn video_depth_range_parse_video_depth_range_rejects_overrun() {
    // range_length=5 but only 2 bytes follow
    let sel = [0x00, 0x05, 0xAA, 0xBB];
    let bytes = wrap(0x10, &sel);
    assert!(matches!(
        ExtensionDescriptor::parse(&bytes).unwrap_err(),
        Error::BufferTooShort { .. }
    ));
}

#[test]
fn vvc_subpictures_parse_vvc_subpictures_with_description_round_trip() {
    // Table 162a: default_service_mode=true, 2 subpictures,
    // processing_mode=5, service_description = "Hi" (2 bytes).
    // byte0: ds=1(0x80) | sdp=1(0x40) | n=2(0x02) = 0xC2
    // subpicture 0: component_tag=0x10, vvc_subpicture_id=0x01
    // subpicture 1: component_tag=0x11, vvc_subpicture_id=0x02
    // processing_mode byte: 0x05
    // service_description_length: 2, then b'H', b'i'
    let sel = [0xC2, 0x10, 0x01, 0x11, 0x02, 0x05, 0x02, b'H', b'i'];
    let bytes = wrap(0x23, &sel);
    let d = ExtensionDescriptor::parse(&bytes).unwrap();
    assert_eq!(d.kind(), Some(ExtensionTag::VvcSubpictures));
    match &d.body {
        ExtensionBody::VvcSubpictures(b) => {
            assert!(b.default_service_mode);
            assert_eq!(b.subpictures.len(), 2);
            assert_eq!(b.subpictures[0].component_tag, 0x10);
            assert_eq!(b.subpictures[0].vvc_subpicture_id, 0x01);
            assert_eq!(b.subpictures[1].component_tag, 0x11);
            assert_eq!(b.subpictures[1].vvc_subpicture_id, 0x02);
            assert_eq!(b.processing_mode, 5);
            assert!(b.service_description.is_some());
            let desc = b.service_description.as_ref().unwrap();
            assert_eq!(desc.raw(), b"Hi");
            assert_eq!(desc.decode(), "Hi");
        }
        other => panic!("expected VvcSubpictures, got {other:?}"),
    }
    round_trip(&d);
}

#[test]
fn vvc_subpictures_parse_vvc_subpictures_no_description_round_trip() {
    // default_service_mode=false, 1 subpicture, processing_mode=1,
    // no service_description.
    // byte0: ds=0 | sdp=0 | n=1 = 0x01
    let sel = [0x01, 0x20, 0x03, 0x01];
    let bytes = wrap(0x23, &sel);
    let d = ExtensionDescriptor::parse(&bytes).unwrap();
    match &d.body {
        ExtensionBody::VvcSubpictures(b) => {
            assert!(!b.default_service_mode);
            assert_eq!(b.subpictures.len(), 1);
            assert_eq!(b.subpictures[0].component_tag, 0x20);
            assert_eq!(b.subpictures[0].vvc_subpicture_id, 0x03);
            assert_eq!(b.processing_mode, 1);
            assert!(b.service_description.is_none());
        }
        other => panic!("expected VvcSubpictures, got {other:?}"),
    }
    round_trip(&d);
}

#[test]
fn vvc_subpictures_parse_vvc_subpictures_rejects_truncated() {
    // Only 2 selector bytes, need at least 1 + 0*2 + 1 = 2 bytes.
    let sel = [0x00]; // n=0, but no processing_mode byte
    let bytes = wrap(0x23, &sel);
    assert!(matches!(
        ExtensionDescriptor::parse(&bytes).unwrap_err(),
        Error::BufferTooShort { .. }
    ));
}

#[test]
fn vvc_subpictures_parse_vvc_subpictures_rejects_overrun() {
    // service_description_present but no length byte
    let sel = [0xC0]; // ds=1, sdp=1, n=0 — missing processing_mode + desc
    let bytes = wrap(0x23, &sel);
    assert!(matches!(
        ExtensionDescriptor::parse(&bytes).unwrap_err(),
        Error::BufferTooShort { .. }
    ));
}

#[test]
fn vvc_subpictures_parse_vvc_subpictures_serialize_round_trip_no_subpictures() {
    // Zero subpictures, no description — minimal valid payload.
    // byte0: ds=1(0x80) | sdp=0 | n=0 = 0x80
    let sel = [0x80, 0x03];
    let bytes = wrap(0x23, &sel);
    let d = ExtensionDescriptor::parse(&bytes).unwrap();
    match &d.body {
        ExtensionBody::VvcSubpictures(b) => {
            assert!(b.default_service_mode);
            assert!(b.subpictures.is_empty());
            assert_eq!(b.processing_mode, 3);
            assert!(b.service_description.is_none());
        }
        other => panic!("expected VvcSubpictures, got {other:?}"),
    }
    round_trip(&d);
}

#[test]
fn extension_body_metadata_matches_dispatch() {
    fn kind_of(tag_extension: u8) -> Option<ExtensionTag> {
        ExtensionDescriptor { tag_extension, body: ExtensionBody::Raw(&[]) }.kind()
    }
    assert_eq!(<T2mi as ExtensionBodyDef>::TAG_EXTENSION, 0x11);
    assert_eq!(<T2mi as ExtensionBodyDef>::NAME, "T2MI");
    assert_eq!(kind_of(<T2mi as ExtensionBodyDef>::TAG_EXTENSION), Some(ExtensionTag::T2mi));
    assert_eq!(<Ac4 as ExtensionBodyDef>::TAG_EXTENSION, 0x15);
    assert_eq!(kind_of(<Ac4 as ExtensionBodyDef>::TAG_EXTENSION), Some(ExtensionTag::Ac4));
    assert_eq!(<Message as ExtensionBodyDef>::NAME, "MESSAGE");
    assert_eq!(kind_of(<Message as ExtensionBodyDef>::TAG_EXTENSION), Some(ExtensionTag::Message));
}
