use dvb_si::descriptors::linkage::{
    EventLinkageInfo, ExtendedEventLinkageEntry, ExtendedEventLinkageInfo, LinkageData, LinkageDescriptor,
    MobileHandOverInfo, TargetId, TAG,
};
use dvb_si::Error;

/// Reserved bits of the event linkage flags byte.
const RESERVED_EVENT_MASK: u8 = 0x3F;
/// Reserved bits of the mobile hand-over flags byte.
const RESERVED_HANDOVER_MASK: u8 = 0x0E;

#[test]
fn parse_extracts_tsid_onid_sid() {
    let bytes = [
        TAG, 0x09, 0x00, 0x01, 0x00, 0x02, 0x00, 0x03, 0x05, 0xAA, 0xBB,
    ];
    let d = LinkageDescriptor::parse(&bytes).unwrap();
    assert_eq!(d.transport_stream_id, 0x0001);
    assert_eq!(d.original_network_id, 0x0002);
    assert_eq!(d.service_id, 0x0003);
}

#[test]
fn parse_extracts_linkage_type() {
    let bytes = [TAG, 0x07, 0x00, 0x01, 0x00, 0x02, 0x00, 0x03, 0x06];
    let d = LinkageDescriptor::parse(&bytes).unwrap();
    assert_eq!(d.linkage_type, 0x06);
}

#[test]
fn parse_none_type_preserves_private_data() {
    let bytes = [
        TAG, 0x0A, 0x00, 0x01, 0x00, 0x02, 0x00, 0x03, 0x05, 0xAA, 0xBB, 0xCC,
    ];
    let d = LinkageDescriptor::parse(&bytes).unwrap();
    assert!(matches!(d.linkage_data, LinkageData::NoData));
    assert_eq!(d.private_data, &[0xAA, 0xBB, 0xCC]);
}

#[test]
fn parse_accepts_empty_private_data() {
    let bytes = [TAG, 0x07, 0x00, 0x01, 0x00, 0x02, 0x00, 0x03, 0x05];
    let d = LinkageDescriptor::parse(&bytes).unwrap();
    assert!(d.private_data.is_empty());
}

#[test]
fn parse_mobile_handover_with_initial_sid() {
    let bytes = [
        TAG, 0x0E, // length 14 = 7 fixed + 5 handover + 2 priv
        0x00, 0x01, // ts_id
        0x00, 0x02, // onid
        0x00, 0x03, // sid
        0x08, // linkage_type = mobile hand-over
        0x12, // hand_over_type=1, rfu=110, origin_type=0 (NIT)
        0x00, 0x10, // network_id
        0x00, 0x20, // initial_service_id
        0xDE, 0xAD, // private_data
    ];
    let d = LinkageDescriptor::parse(&bytes).unwrap();
    assert_eq!(d.linkage_type, 0x08);
    match &d.linkage_data {
        LinkageData::MobileHandOver(m) => {
            assert_eq!(m.hand_over_type, 1);
            assert!(!m.origin_type);
            assert_eq!(m.network_id, Some(0x0010));
            assert_eq!(m.initial_service_id, Some(0x0020));
        }
        other => panic!("expected MobileHandOver, got {other:?}"),
    }
    assert_eq!(d.private_data, &[0xDE, 0xAD]);
}

#[test]
fn parse_mobile_handover_sdt_no_initial_sid() {
    let bytes = [
        TAG, 0x0C, // length 12 = 7 fixed + 3 handover + 2 priv
        0x00, 0x01, // ts_id
        0x00, 0x02, // onid
        0x00, 0x03, // sid
        0x08, // linkage_type = mobile hand-over
        0x2F, // hand_over_type=2, rfu=111, origin_type=1 (SDT)
        0x00, 0x10, // network_id
        0xCA, 0xFE, // private_data
    ];
    let d = LinkageDescriptor::parse(&bytes).unwrap();
    match &d.linkage_data {
        LinkageData::MobileHandOver(m) => {
            assert_eq!(m.hand_over_type, 2);
            assert!(m.origin_type);
            assert_eq!(m.network_id, Some(0x0010));
            assert_eq!(m.initial_service_id, None);
        }
        other => panic!("expected MobileHandOver, got {other:?}"),
    }
    assert_eq!(d.private_data, &[0xCA, 0xFE]);
}

#[test]
fn parse_event_linkage() {
    let bytes = [
        TAG, 0x0C, // length 12 = 7 fixed + 3 event + 2 priv
        0x00, 0x01, // ts_id
        0x00, 0x02, // onid
        0x00, 0x03, // sid
        0x0D, // linkage_type = event linkage
        0xAB, 0xCD, // target_event_id
        0xC0, // target_listed=1, event_simulcast=1, rfu=000000
        0xBE, 0xEF, // private_data
    ];
    let d = LinkageDescriptor::parse(&bytes).unwrap();
    match &d.linkage_data {
        LinkageData::EventLinkage(e) => {
            assert_eq!(e.target_event_id, 0xABCD);
            assert!(e.target_listed);
            assert!(e.event_simulcast);
        }
        other => panic!("expected EventLinkage, got {other:?}"),
    }
    assert_eq!(d.private_data, &[0xBE, 0xEF]);
}

#[test]
fn parse_extended_event_linkage_user_defined() {
    let bytes = [
        TAG, 0x0E, // length 14 = 7 fixed + 6 ext + 1 priv
        0x00, 0x01, // ts_id
        0x00, 0x02, // onid
        0x00, 0x03, // sid
        0x0E, // linkage_type = extended event linkage
        0x05, // loop_length = 5
        0x12, 0x34, // target_event_id
        0xCC, // target_listed=1, event_simulcast=1, link_type=0, target_id_type=3, flags=0
        0x56, 0x78, // user_defined_id
        0xCC, // private_data
    ];
    let d = LinkageDescriptor::parse(&bytes).unwrap();
    match &d.linkage_data {
        LinkageData::ExtendedEventLinkage(x) => {
            assert_eq!(x.entries.len(), 1);
            let e = &x.entries[0];
            assert_eq!(e.target_event_id, 0x1234);
            assert!(e.target_listed);
            assert!(e.event_simulcast);
            assert_eq!(e.link_type, 0);
            assert_eq!(e.target_id_type, 3);
            assert_eq!(
                e.target_id,
                TargetId::UserDefined {
                    user_defined_id: 0x5678
                }
            );
        }
        other => panic!("expected ExtendedEventLinkage, got {other:?}"),
    }
    assert_eq!(d.private_data, &[0xCC]);
}

#[test]
fn parse_extended_event_linkage_dvb_target() {
    let bytes = [
        TAG, 0x0F, // length 15 = 7 fixed + 8 ext
        0x00, 0x01, // ts_id
        0x00, 0x02, // onid
        0x00, 0x03, // sid
        0x0F, // linkage_type
        0x07, // loop_length = 7
        0xAA, 0xBB, // target_event_id
        0x26, // target_listed=0, event_simulcast=0, link_type=2, target_id_type=1, onid_flag=1, sid_flag=0
        0x00, 0x11, // target_transport_stream_id (target_id_type=1)
        0x00, 0x22, // target_original_network_id (onid_flag=1)
    ];
    let d = LinkageDescriptor::parse(&bytes).unwrap();
    match &d.linkage_data {
        LinkageData::ExtendedEventLinkage(x) => {
            assert_eq!(x.entries.len(), 1);
            let e = &x.entries[0];
            assert_eq!(e.target_id_type, 1);
            assert!(e.original_network_id_flag);
            assert!(!e.service_id_flag);
            assert_eq!(
                e.target_id,
                TargetId::Dvb {
                    target_id_type: 1,
                    target_transport_stream_id: Some(0x0011),
                    target_original_network_id: Some(0x0022),
                    target_service_id: None,
                }
            );
        }
        other => panic!("expected ExtendedEventLinkage, got {other:?}"),
    }
    assert_eq!(d.private_data, &[] as &[u8]);
}

#[test]
fn parse_other_type_captures_raw_tail() {
    let bytes = [
        TAG, 0x0A, // length 10
        0x00, 0x01, // ts_id
        0x00, 0x02, // onid
        0x00, 0x03, // sid
        0x0B, // linkage_type = IP/MAC notification (EN 301 192)
        0xAA, 0xBB, 0xCC, // raw tail
    ];
    let d = LinkageDescriptor::parse(&bytes).unwrap();
    match &d.linkage_data {
        LinkageData::Other(b) => assert_eq!(*b, &[0xAA, 0xBB, 0xCC]),
        other => panic!("expected Other, got {other:?}"),
    }
    assert!(d.private_data.is_empty());
}

#[test]
fn parse_user_defined_type_is_other() {
    let bytes = [
        TAG, 0x09, // length 9
        0x00, 0x01, // ts_id
        0x00, 0x02, // onid
        0x00, 0x03, // sid
        0x90, // user-defined linkage_type
        0xFF, 0xFE, // raw tail
    ];
    let d = LinkageDescriptor::parse(&bytes).unwrap();
    assert!(matches!(d.linkage_data, LinkageData::Other(_)));
}

#[test]
fn linkage_parse_rejects_wrong_tag() {
    let err = LinkageDescriptor::parse(&[0x4B, 0x07, 0x00, 0x01, 0x00, 0x02, 0x00, 0x03, 0x05])
        .unwrap_err();
    assert!(matches!(err, Error::InvalidDescriptor { tag: 0x4B, .. }));
}

#[test]
fn parse_rejects_body_shorter_than_seven() {
    let bytes = [TAG, 0x05, 0x00, 0x01, 0x00, 0x02, 0x00];
    let err = LinkageDescriptor::parse(&bytes).unwrap_err();
    assert!(matches!(err, Error::InvalidDescriptor { tag: TAG, .. }));
}

#[test]
fn linkage_parse_rejects_truncated_buffer() {
    let err = LinkageDescriptor::parse(&[TAG]).unwrap_err();
    assert!(matches!(err, Error::BufferTooShort { .. }));
}

#[test]
fn parse_rejects_truncated_mobile_handover() {
    let bytes = [
        TAG, 0x08, // length 8
        0x00, 0x01, 0x00, 0x02, 0x00, 0x03, 0x08, // linkage_type = mobile hand-over
        0x10, // flags byte (origin_type=0, needs initial_service_id)
        0x00, 0x10, // network_id
    ];
    let err = LinkageDescriptor::parse(&bytes).unwrap_err();
    assert!(
        matches!(err, Error::InvalidDescriptor { .. }),
        "expected InvalidDescriptor for truncated mobile hand-over, got {err:?}"
    );
}

#[test]
fn serialize_round_trip_no_linkage_data() {
    let d = LinkageDescriptor {
        transport_stream_id: 0x1234,
        original_network_id: 0x5678,
        service_id: 0xABCD,
        linkage_type: 0x02,
        linkage_data: LinkageData::NoData,
        private_data: &[],
    };
    let mut buf = vec![0u8; d.serialized_len()];
    d.serialize_into(&mut buf).unwrap();
    let re = LinkageDescriptor::parse(&buf).unwrap();
    assert_eq!(d, re);
}

#[test]
fn serialize_round_trip_with_private_data() {
    let d = LinkageDescriptor {
        transport_stream_id: 0x0001,
        original_network_id: 0x0002,
        service_id: 0x0003,
        linkage_type: 0x05,
        linkage_data: LinkageData::NoData,
        private_data: &[0xDE, 0xAD, 0xBE, 0xEF],
    };
    let mut buf = vec![0u8; d.serialized_len()];
    d.serialize_into(&mut buf).unwrap();
    let re = LinkageDescriptor::parse(&buf).unwrap();
    assert_eq!(d, re);
}

#[test]
fn serialize_round_trip_mobile_handover() {
    let d = LinkageDescriptor {
        transport_stream_id: 0x0001,
        original_network_id: 0x0002,
        service_id: 0x0003,
        linkage_type: 0x08,
        linkage_data: LinkageData::MobileHandOver(MobileHandOverInfo {
            hand_over_type: 3,
            origin_type: false,
            network_id: Some(0x0044),
            initial_service_id: Some(0x0055),
        }),
        private_data: &[0xFF],
    };
    let mut buf = vec![0u8; d.serialized_len()];
    d.serialize_into(&mut buf).unwrap();
    let re = LinkageDescriptor::parse(&buf).unwrap();
    assert_eq!(d, re);
}

#[test]
fn serialize_round_trip_event_linkage() {
    let d = LinkageDescriptor {
        transport_stream_id: 0x0001,
        original_network_id: 0x0002,
        service_id: 0x0003,
        linkage_type: 0x0D,
        linkage_data: LinkageData::EventLinkage(EventLinkageInfo {
            target_event_id: 0x1234,
            target_listed: true,
            event_simulcast: false,
        }),
        private_data: &[],
    };
    let mut buf = vec![0u8; d.serialized_len()];
    d.serialize_into(&mut buf).unwrap();
    let re = LinkageDescriptor::parse(&buf).unwrap();
    assert_eq!(d, re);
}

#[test]
fn serialize_round_trip_extended_event_linkage() {
    let d = LinkageDescriptor {
        transport_stream_id: 0x0001,
        original_network_id: 0x0002,
        service_id: 0x0003,
        linkage_type: 0x0E,
        linkage_data: LinkageData::ExtendedEventLinkage(ExtendedEventLinkageInfo {
            entries: vec![ExtendedEventLinkageEntry {
                target_event_id: 0xAAAA,
                target_listed: true,
                event_simulcast: true,
                link_type: 1,
                target_id_type: 1,
                original_network_id_flag: true,
                service_id_flag: true,
                target_id: TargetId::Dvb {
                    target_id_type: 1,
                    target_transport_stream_id: Some(0x1111),
                    target_original_network_id: Some(0x2222),
                    target_service_id: Some(0x3333),
                },
            }],
        }),
        private_data: &[0xCC],
    };
    let mut buf = vec![0u8; d.serialized_len()];
    d.serialize_into(&mut buf).unwrap();
    let re = LinkageDescriptor::parse(&buf).unwrap();
    assert_eq!(d, re);
}

#[test]
fn serialize_round_trip_other() {
    let raw = [0xAA, 0xBB, 0xCC];
    let d = LinkageDescriptor {
        transport_stream_id: 0x0001,
        original_network_id: 0x0002,
        service_id: 0x0003,
        linkage_type: 0x0B,
        linkage_data: LinkageData::Other(&raw),
        private_data: &[],
    };
    let mut buf = vec![0u8; d.serialized_len()];
    d.serialize_into(&mut buf).unwrap();
    let re = LinkageDescriptor::parse(&buf).unwrap();
    assert_eq!(d, re);
}

#[test]
fn serialize_reserved_bits_are_set() {
    let d = LinkageDescriptor {
        transport_stream_id: 0x0001,
        original_network_id: 0x0002,
        service_id: 0x0003,
        linkage_type: 0x0D,
        linkage_data: LinkageData::EventLinkage(EventLinkageInfo {
            target_event_id: 0x0000,
            target_listed: false,
            event_simulcast: false,
        }),
        private_data: &[],
    };
    let mut buf = vec![0u8; d.serialized_len()];
    d.serialize_into(&mut buf).unwrap();
    assert_eq!(buf[11] & RESERVED_EVENT_MASK, RESERVED_EVENT_MASK);

    let d2 = LinkageDescriptor {
        transport_stream_id: 0x0001,
        original_network_id: 0x0002,
        service_id: 0x0003,
        linkage_type: 0x08,
        linkage_data: LinkageData::MobileHandOver(MobileHandOverInfo {
            hand_over_type: 0,
            origin_type: true,
            network_id: None,
            initial_service_id: None,
        }),
        private_data: &[],
    };
    let mut buf2 = vec![0u8; d2.serialized_len()];
    d2.serialize_into(&mut buf2).unwrap();
    assert_eq!(buf2[9] & RESERVED_HANDOVER_MASK, RESERVED_HANDOVER_MASK);
}

#[test]
fn parse_mobile_handover_type4_no_network_id() {
    let bytes = [
        TAG, 0x0A, // length 10 = 7 fixed + flags(1) + initial_sid(2)
        0x00, 0x01, // ts_id
        0x00, 0x02, // onid
        0x00, 0x03, // sid
        0x08, // linkage_type = mobile hand-over
        0x4E, // hand_over_type=4, rfu=111, origin_type=0 (NIT)
        0x00, 0x20, // initial_service_id
    ];
    let d = LinkageDescriptor::parse(&bytes).unwrap();
    match &d.linkage_data {
        LinkageData::MobileHandOver(m) => {
            assert_eq!(m.hand_over_type, 4);
            assert!(!m.origin_type);
            assert_eq!(m.network_id, None);
            assert_eq!(m.initial_service_id, Some(0x0020));
        }
        other => panic!("expected MobileHandOver, got {other:?}"),
    }
}

#[test]
fn parse_mobile_handover_type1_network_id_present() {
    let bytes = [
        TAG, 0x0C, // length 12 = 7 fixed + 3 handover + 2 priv
        0x00, 0x01, // ts_id
        0x00, 0x02, // onid
        0x00, 0x03, // sid
        0x08, // linkage_type = mobile hand-over
        0x1F, // hand_over_type=1, rfu=111, origin_type=1 (SDT)
        0x00, 0x10, // network_id
        0xCA, 0xFE, // private_data
    ];
    let d = LinkageDescriptor::parse(&bytes).unwrap();
    match &d.linkage_data {
        LinkageData::MobileHandOver(m) => {
            assert_eq!(m.hand_over_type, 1);
            assert!(m.origin_type);
            assert_eq!(m.network_id, Some(0x0010));
            assert_eq!(m.initial_service_id, None);
        }
        other => panic!("expected MobileHandOver, got {other:?}"),
    }
    assert_eq!(d.private_data, &[0xCA, 0xFE]);
}


fn fixed(linkage_type: u8) -> Vec<u8> {
    vec![0x00, 0x01, 0x00, 0x02, 0x00, 0x03, linkage_type]
}

fn framed(body: Vec<u8>) -> Vec<u8> {
    let mut v = vec![TAG, body.len() as u8];
    v.extend(body);
    v
}

#[test]
fn linkage_serialize_exact_bytes_extended() {
    let d = LinkageDescriptor {
        transport_stream_id: 0x0001,
        original_network_id: 0x0002,
        service_id: 0x0003,
        linkage_type: 0x0F,
        linkage_data: LinkageData::ExtendedEventLinkage(ExtendedEventLinkageInfo {
            entries: vec![ExtendedEventLinkageEntry {
                target_event_id: 0xAABB,
                target_listed: false,
                event_simulcast: false,
                link_type: 2,
                target_id_type: 1,
                original_network_id_flag: true,
                service_id_flag: false,
                target_id: TargetId::Dvb {
                    target_id_type: 1,
                    target_transport_stream_id: Some(0x0011),
                    target_original_network_id: Some(0x0022),
                    target_service_id: None,
                },
            }],
        }),
        private_data: &[],
    };
    let mut buf = vec![0u8; d.serialized_len()];
    assert_eq!(d.serialize_into(&mut buf).unwrap(), 17);
    let mut body = fixed(0x0F);
    body.extend([0x07, 0xAA, 0xBB, 0x26, 0x00, 0x11, 0x00, 0x22]);
    assert_eq!(buf, framed(body));
}

#[test]
fn linkage_serialize_rejects_small_buffer() {
    let d = LinkageDescriptor {
        transport_stream_id: 1,
        original_network_id: 2,
        service_id: 3,
        linkage_type: 0x01,
        linkage_data: LinkageData::NoData,
        private_data: &[0xAB],
    };
    let mut buf = [0x77u8; 9];
    assert!(matches!(
        d.serialize_into(&mut buf).unwrap_err(),
        Error::OutputBufferTooSmall { need: 10, have: 9 }
    ));
    assert_eq!(buf, [0x77; 9]);
}

#[test]
fn linkage_parse_rejects_extended_loop_overrun() {
    let mut body = fixed(0x0E);
    body.extend([0x05, 0x12, 0x34]);
    let err = LinkageDescriptor::parse(&framed(body)).unwrap_err();
    assert!(matches!(err, Error::BufferTooShort { need: 6, have: 3, .. }));
}

#[test]
fn linkage_parse_rejects_truncated_extended_entry() {
    // loop of 4 bytes: one entry whose flags announce a user_defined_id that does not fit
    let mut body = fixed(0x0E);
    body.extend([0x04, 0x12, 0x34, 0x0C, 0x56]);
    let err = LinkageDescriptor::parse(&framed(body)).unwrap_err();
    assert!(matches!(err, Error::InvalidDescriptor { tag: TAG, .. }));
}

#[test]
fn linkage_parse_rejects_empty_extended_tail() {
    let err = LinkageDescriptor::parse(&framed(fixed(0x1F))).unwrap_err();
    assert!(matches!(err, Error::InvalidDescriptor { tag: TAG, .. }));
}

#[test]
fn linkage_parse_rejects_short_event_linkage() {
    let mut body = fixed(0x0D);
    body.extend([0xAB, 0xCD]);
    let err = LinkageDescriptor::parse(&framed(body)).unwrap_err();
    assert!(matches!(err, Error::InvalidDescriptor { tag: TAG, .. }));
}

#[test]
fn linkage_parse_empty_extended_loop() {
    let mut body = fixed(0x10);
    body.extend([0x00, 0x99]);
    let raw = framed(body);
    let d = LinkageDescriptor::parse(&raw).unwrap();
    assert_eq!(d.linkage_data, LinkageData::ExtendedEventLinkage(ExtendedEventLinkageInfo { entries: vec![] }));
    assert_eq!(d.private_data, &[0x99]);
}

#[test]
fn linkage_parse_extended_two_entries() {
    let mut body = fixed(0x0E);
    body.extend([0x0A, 0x00, 0x01, 0x0C, 0x00, 0x02, 0x00, 0x03, 0x01, 0x00, 0x04]);
    let raw = framed(body);
    let d = LinkageDescriptor::parse(&raw).unwrap();
    match &d.linkage_data {
        LinkageData::ExtendedEventLinkage(x) => {
            assert_eq!(x.entries.len(), 2);
            assert_eq!(x.entries[0].target_id, TargetId::UserDefined { user_defined_id: 2 });
            assert_eq!(x.entries[1].target_event_id, 3);
            assert!(x.entries[1].service_id_flag);
            assert_eq!(
                x.entries[1].target_id,
                TargetId::Dvb {
                    target_id_type: 0,
                    target_transport_stream_id: None,
                    target_original_network_id: None,
                    target_service_id: Some(4),
                }
            );
        }
        other => panic!("expected ExtendedEventLinkage, got {other:?}"),
    }
    assert!(d.private_data.is_empty());
}

#[test]
fn linkage_type_ff_has_no_conditional_block() {
    let mut body = fixed(0xFF);
    body.extend([0x01, 0x02]);
    let raw = framed(body);
    let d = LinkageDescriptor::parse(&raw).unwrap();
    assert_eq!(d.linkage_data, LinkageData::NoData);
    assert_eq!(d.private_data, &[0x01, 0x02]);
}

#[test]
fn linkage_canonical_bytes_round_trip() {
    let mut body = fixed(0x08);
    body.extend([0x2E, 0x00, 0x10, 0x00, 0x20, 0xDE]);
    let raw = framed(body);
    let d = LinkageDescriptor::parse(&raw).unwrap();
    let mut buf = vec![0u8; d.serialized_len()];
    d.serialize_into(&mut buf).unwrap();
    assert_eq!(buf, raw);
}
