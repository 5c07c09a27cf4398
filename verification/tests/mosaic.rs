use dvb_si::descriptors::mosaic::{CellLinkage, MosaicDescriptor, MosaicLogicalCell, TAG};
use dvb_si::Error;

#[test]
fn parse_single_cell_undefined_linkage() {
    // grid header 0x80|0x08 (entry point + reserved), 2x2 grid coded as 1,1
    // logical cell: id=5, presentation=1, 2 elem cells [3,7], linkage 0x00
    let bytes = [
        TAG,
        0x07,
        0x80 | (1 << 4) | 0x08 | 1, // header
        (5 << 2) | 0x03,            // logical_cell_id=5
        0xF8 | 1,                   // presentation_info=1
        0x02,                       // elementary_cell_field_length=2
        0xC0 | 3,
        0xC0 | 7,
        0x00, // cell_linkage_info = undefined
    ];
    let d = MosaicDescriptor::parse(&bytes).unwrap();
    assert!(d.mosaic_entry_point);
    assert_eq!(d.num_horizontal_cells, 1);
    assert_eq!(d.num_vertical_cells, 1);
    assert_eq!(d.logical_cells.len(), 1);
    let c = &d.logical_cells[0];
    assert_eq!(c.logical_cell_id, 5);
    assert_eq!(c.presentation_info, 1);
    assert_eq!(c.elementary_cell_ids, vec![3, 7]);
    assert_eq!(c.linkage, CellLinkage::Undefined);
}

#[test]
fn parse_service_linkage() {
    let d = MosaicDescriptor {
        mosaic_entry_point: false,
        num_horizontal_cells: 0,
        num_vertical_cells: 0,
        logical_cells: vec![MosaicLogicalCell {
            logical_cell_id: 1,
            presentation_info: 2,
            elementary_cell_ids: vec![0],
            linkage: CellLinkage::Service {
                original_network_id: 0x1111,
                transport_stream_id: 0x2222,
                service_id: 0x3333,
            },
        }],
    };
    let mut buf = vec![0u8; d.serialized_len()];
    d.serialize_into(&mut buf).unwrap();
    let p = MosaicDescriptor::parse(&buf).unwrap();
    assert_eq!(p, d);
    assert!(matches!(
        p.logical_cells[0].linkage,
        CellLinkage::Service {
            original_network_id: 0x1111,
            transport_stream_id: 0x2222,
            service_id: 0x3333,
        }
    ));
}

#[test]
fn parse_event_linkage_round_trip() {
    let d = MosaicDescriptor {
        mosaic_entry_point: true,
        num_horizontal_cells: 3,
        num_vertical_cells: 2,
        logical_cells: vec![MosaicLogicalCell {
            logical_cell_id: 10,
            presentation_info: 3,
            elementary_cell_ids: vec![1, 2, 3],
            linkage: CellLinkage::Event {
                original_network_id: 0xAAAA,
                transport_stream_id: 0xBBBB,
                service_id: 0xCCCC,
                event_id: 0xDDDD,
            },
        }],
    };
    let mut buf = vec![0u8; d.serialized_len()];
    d.serialize_into(&mut buf).unwrap();
    assert_eq!(MosaicDescriptor::parse(&buf).unwrap(), d);
}

#[test]
fn parse_reserved_linkage_round_trips() {
    let bytes = [
        TAG,
        0x05,
        0x08, // grid header, no entry point, grid 0,0
        (1 << 2) | 0x03,
        0xF8,
        0x00, // no elementary cells
        0x42, // reserved linkage value
    ];
    let d = MosaicDescriptor::parse(&bytes).unwrap();
    assert_eq!(
        d.logical_cells[0].linkage,
        CellLinkage::Reserved { value: 0x42 }
    );
    let mut buf = vec![0u8; d.serialized_len()];
    d.serialize_into(&mut buf).unwrap();
    assert_eq!(MosaicDescriptor::parse(&buf).unwrap(), d);
}

#[test]
fn parse_multiple_cells() {
    let d = MosaicDescriptor {
        mosaic_entry_point: false,
        num_horizontal_cells: 1,
        num_vertical_cells: 1,
        logical_cells: vec![
            MosaicLogicalCell {
                logical_cell_id: 0,
                presentation_info: 1,
                elementary_cell_ids: vec![0],
                linkage: CellLinkage::Bouquet { bouquet_id: 0x1234 },
            },
            MosaicLogicalCell {
                logical_cell_id: 1,
                presentation_info: 1,
                elementary_cell_ids: vec![1],
                linkage: CellLinkage::Undefined,
            },
        ],
    };
    let mut buf = vec![0u8; d.serialized_len()];
    d.serialize_into(&mut buf).unwrap();
    let p = MosaicDescriptor::parse(&buf).unwrap();
    assert_eq!(p.logical_cells.len(), 2);
    assert_eq!(p, d);
}

#[test]
fn mosaic_parse_rejects_wrong_tag() {
    assert!(matches!(
        MosaicDescriptor::parse(&[0x52, 1, 0x08]).unwrap_err(),
        Error::InvalidDescriptor { tag: 0x52, .. }
    ));
}

#[test]
fn mosaic_parse_rejects_short_buffer() {
    // declares 5 body bytes, only 2 present
    let bytes = [TAG, 5, 0x08, 0x00];
    assert!(matches!(
        MosaicDescriptor::parse(&bytes).unwrap_err(),
        Error::BufferTooShort { .. }
    ));
}

#[test]
fn parse_rejects_elem_field_overrun() {
    // elementary_cell_field_length=10 but body has no room
    let bytes = [TAG, 4, 0x08, (1 << 2) | 0x03, 0xF8, 0x0A];
    assert!(matches!(
        MosaicDescriptor::parse(&bytes).unwrap_err(),
        Error::InvalidDescriptor { tag: TAG, .. }
    ));
}

#[test]
fn parse_rejects_missing_linkage_byte() {
    // cell header present, elem_field_len=0, but no cell_linkage_info byte
    let bytes = [TAG, 4, 0x08, (1 << 2) | 0x03, 0xF8, 0x00];
    // length=4 means body is [0x08, hdr0, hdr1, 0x00]; after the 3 fixed
    // cell bytes pos == body.len() so the linkage byte is missing.
    assert!(matches!(
        MosaicDescriptor::parse(&bytes).unwrap_err(),
        Error::InvalidDescriptor { tag: TAG, .. }
    ));
}

#[test]
fn parse_rejects_zero_length() {
    assert!(matches!(
        MosaicDescriptor::parse(&[TAG, 0]).unwrap_err(),
        Error::InvalidDescriptor { tag: TAG, .. }
    ));
}

#[test]
fn mosaic_serialize_emits_reserved_ones() {
    let d = MosaicDescriptor {
        mosaic_entry_point: false,
        num_horizontal_cells: 0,
        num_vertical_cells: 0,
        logical_cells: vec![],
    };
    let mut buf = vec![0u8; d.serialized_len()];
    d.serialize_into(&mut buf).unwrap();
    // grid header reserved bit (bit 3) set
    assert_eq!(buf[2] & 0x08, 0x08);
}

#[test]
fn serialize_round_trip_empty_grid() {
    let d = MosaicDescriptor {
        mosaic_entry_point: true,
        num_horizontal_cells: 7,
        num_vertical_cells: 7,
        logical_cells: vec![],
    };
    let mut buf = vec![0u8; d.serialized_len()];
    d.serialize_into(&mut buf).unwrap();
    assert_eq!(MosaicDescriptor::parse(&buf).unwrap(), d);
}


fn cell(id: u8, ids: Vec<u8>, linkage: CellLinkage) -> MosaicLogicalCell {
    MosaicLogicalCell { logical_cell_id: id, presentation_info: 1, elementary_cell_ids: ids, linkage }
}

#[test]
fn mosaic_serialize_exact_bytes() {
    let d = MosaicDescriptor {
        mosaic_entry_point: true,
        num_horizontal_cells: 1,
        num_vertical_cells: 2,
        logical_cells: vec![cell(5, vec![3], CellLinkage::Bouquet { bouquet_id: 0x1234 })],
    };
    let mut buf = vec![0u8; d.serialized_len()];
    assert_eq!(d.serialize_into(&mut buf).unwrap(), 10);
    assert_eq!(buf, vec![TAG, 8, 0x80 | 0x10 | 0x08 | 2, (5 << 2) | 3, 0xF9, 1, 0xC3, 0x01, 0x12, 0x34]);
    assert_eq!(d.descriptor_length(), 8);
}

#[test]
fn mosaic_serialize_masks_out_of_range_fields() {
    let d = MosaicDescriptor {
        mosaic_entry_point: false,
        num_horizontal_cells: 9,
        num_vertical_cells: 10,
        logical_cells: vec![MosaicLogicalCell {
            logical_cell_id: 0x41,
            presentation_info: 9,
            elementary_cell_ids: vec![0x45],
            linkage: CellLinkage::Undefined,
        }],
    };
    let mut buf = vec![0u8; d.serialized_len()];
    d.serialize_into(&mut buf).unwrap();
    assert_eq!(buf, vec![TAG, 6, 0x10 | 0x08 | 2, (1 << 2) | 3, 0xF9, 1, 0xC5, 0x00]);
}

#[test]
fn mosaic_serialize_rejects_small_buffer() {
    let d = MosaicDescriptor {
        mosaic_entry_point: false,
        num_horizontal_cells: 0,
        num_vertical_cells: 0,
        logical_cells: vec![cell(1, vec![], CellLinkage::Undefined)],
    };
    let mut buf = vec![0xAAu8; 4];
    assert!(matches!(
        d.serialize_into(&mut buf).unwrap_err(),
        Error::OutputBufferTooSmall { need: 7, have: 4 }
    ));
    assert_eq!(buf, vec![0xAA; 4]);
}

#[test]
fn mosaic_serialize_rejects_oversized_body() {
    let d = MosaicDescriptor {
        mosaic_entry_point: false,
        num_horizontal_cells: 0,
        num_vertical_cells: 0,
        logical_cells: vec![cell(1, vec![0; 300], CellLinkage::Undefined)],
    };
    let mut buf = vec![0u8; d.serialized_len()];
    assert!(matches!(
        d.serialize_into(&mut buf).unwrap_err(),
        Error::SectionLengthOverflow { declared: 305, available: 255 }
    ));
}

#[test]
fn mosaic_parse_rejects_truncated_linkage_payload() {
    // event linkage needs 8 payload bytes; only 2 present
    let bytes = [TAG, 7, 0x08, (1 << 2) | 3, 0xF8, 0x00, 0x04, 0x00, 0x01];
    assert!(matches!(
        MosaicDescriptor::parse(&bytes).unwrap_err(),
        Error::InvalidDescriptor { tag: TAG, .. }
    ));
}

#[test]
fn mosaic_parse_ignores_reserved_bits() {
    // reserved bits all zero: parse still yields the fields
    let bytes = [TAG, 6, 0x23, 5 << 2, 0x02, 0x01, 0x09, 0x00];
    let d = MosaicDescriptor::parse(&bytes).unwrap();
    assert_eq!(d.num_horizontal_cells, 2);
    assert_eq!(d.num_vertical_cells, 3);
    assert_eq!(d.logical_cells[0].logical_cell_id, 5);
    assert_eq!(d.logical_cells[0].presentation_info, 2);
    assert_eq!(d.logical_cells[0].elementary_cell_ids, vec![9]);
}

#[test]
fn mosaic_canonical_bytes_round_trip() {
    let bytes = [TAG, 12, 0x9A, (7 << 2) | 3, 0xFB, 0x01, 0xC4, 0x03, 0x00, 0x01, 0x00, 0x02, 0x00, 0x03];
    let d = MosaicDescriptor::parse(&bytes).unwrap();
    assert_eq!(
        d.logical_cells[0].linkage,
        CellLinkage::OtherMosaic { original_network_id: 1, transport_stream_id: 2, service_id: 3 }
    );
    let mut buf = vec![0u8; d.serialized_len()];
    d.serialize_into(&mut buf).unwrap();
    assert_eq!(buf, bytes.to_vec());
}
