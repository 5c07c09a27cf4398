use dvb_si::descriptors::logical_channel::{LogicalChannelDescriptor, LogicalChannelEntry, TAG};
use dvb_si::Error;

#[test]
fn logical_channel_parse_single_entry() {
    let bytes = [TAG, 4, 0x00, 0x01, 0xFC, 0x05];
    let d = LogicalChannelDescriptor::parse(&bytes).unwrap();
    assert_eq!(d.entries.len(), 1);
    assert_eq!(d.entries[0].service_id, 1);
    assert!(d.entries[0].visible_service);
    assert_eq!(d.entries[0].logical_channel_number, 5);
}

#[test]
fn parse_extracts_visible_service_false() {
    let bytes = [TAG, 4, 0x00, 0x02, 0x7C, 0x0A];
    let d = LogicalChannelDescriptor::parse(&bytes).unwrap();
    assert_eq!(d.entries.len(), 1);
    assert!(!d.entries[0].visible_service);
    assert_eq!(d.entries[0].service_id, 2);
    assert_eq!(d.entries[0].logical_channel_number, 10);
}

#[test]
fn parse_extracts_logical_channel_number_full_10_bit_range() {
    let bytes = [TAG, 4, 0x00, 0x03, 0xFF, 0xFF];
    let d = LogicalChannelDescriptor::parse(&bytes).unwrap();
    assert_eq!(d.entries.len(), 1);
    assert_eq!(d.entries[0].logical_channel_number, 1023);
    assert!(d.entries[0].visible_service);
}

#[test]
fn logical_channel_parse_multiple_entries_preserves_order() {
    let bytes = [
        TAG, 12, 0x00, 0x01, 0xFC, 0x01, 0x00, 0x02, 0xFC, 0x02, 0x00, 0x03, 0xFC, 0x03,
    ];
    let d = LogicalChannelDescriptor::parse(&bytes).unwrap();
    assert_eq!(d.entries.len(), 3);
    assert_eq!(d.entries[0].service_id, 1);
    assert_eq!(d.entries[0].logical_channel_number, 1);
    assert_eq!(d.entries[1].service_id, 2);
    assert_eq!(d.entries[1].logical_channel_number, 2);
    assert_eq!(d.entries[2].service_id, 3);
    assert_eq!(d.entries[2].logical_channel_number, 3);
}

#[test]
fn logical_channel_parse_rejects_wrong_tag() {
    let err = LogicalChannelDescriptor::parse(&[0x84, 4, 0x00, 0x01, 0xFC, 0x05]).unwrap_err();
    assert!(matches!(err, Error::InvalidDescriptor { tag: 0x84, .. }));
}

#[test]
fn logical_channel_parse_rejects_length_not_multiple_of_4() {
    let bytes = [TAG, 5, 0x00, 0x01, 0xFC, 0x05, 0xFF];
    let err = LogicalChannelDescriptor::parse(&bytes).unwrap_err();
    assert!(matches!(err, Error::InvalidDescriptor { tag: TAG, .. }));
}

#[test]
fn parse_tolerates_cleared_reserved_bits() {
    // Real-world broadcasts (TNTSat / ORF Digital) emit
    // logical_channel_descriptors where the reserved bits aren't all
    // set. ETSI EN 300 468 §5.1 says "decoders shall ignore reserved
    // bits" — so we MUST accept the descriptor and just decode the
    // documented fields.
    //
    // The flags byte 0x00 here has visible_service=0, reserved=0,
    // LCN-hi=0. Combined with byte 0x05 (LCN-lo) the LCN is 5.
    let bytes = [TAG, 4, 0x00, 0x01, 0x00, 0x05];
    let d = LogicalChannelDescriptor::parse(&bytes).expect("tolerant parse");
    assert_eq!(d.entries.len(), 1);
    assert_eq!(d.entries[0].service_id, 1);
    assert_eq!(d.entries[0].logical_channel_number, 5);
    assert!(!d.entries[0].visible_service);
}

#[test]
fn logical_channel_empty_descriptor_valid() {
    let bytes = [TAG, 0];
    let d = LogicalChannelDescriptor::parse(&bytes).unwrap();
    assert!(d.entries.is_empty());
}

#[test]
fn logical_channel_serialize_round_trip() {
    let d = LogicalChannelDescriptor {
        entries: vec![
            LogicalChannelEntry {
                service_id: 1,
                visible_service: true,
                logical_channel_number: 5,
            },
            LogicalChannelEntry {
                service_id: 0x0102,
                visible_service: false,
                logical_channel_number: 1023,
            },
        ],
    };
    let mut buf = vec![0u8; d.serialized_len()];
    d.serialize_into(&mut buf).unwrap();
    let re = LogicalChannelDescriptor::parse(&buf).unwrap();
    assert_eq!(d, re);
}

