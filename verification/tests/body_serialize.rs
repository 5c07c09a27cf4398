use dvb_si::descriptors::extension::{
    ExtensionBody, ExtensionDescriptor, Message, S2Xv2SatelliteDeliverySystem, ServiceProminence, SogiEntry,
    T2DeliverySystem,
};
use dvb_si::descriptors::mosaic::MosaicDescriptor;
use dvb_si::descriptors::satellite_delivery_system::{ModulationSystem, RollOff, SatelliteDeliverySystemDescriptor};
use dvb_si::Error;

/// S2Xv2 mode 5 selector: timeslice 0x0F, superframe with the beamhopping id.
fn mode5_bh_sel() -> Vec<u8> {
    let mut sel = Vec::new();
    sel.extend_from_slice(&0x0000_0003u32.to_be_bytes());
    sel.push(0x50);
    sel.push(0x00);
    sel.push(0x00);
    sel.extend_from_slice(&[0, 0, 0]);
    sel.extend_from_slice(&[0, 0, 0, 0]);
    sel.extend_from_slice(&[0, 0, 0, 0]);
    sel.push(0x0F);
    sel.push(0x01);
    sel.push(0x4A);
    sel.push(0xBC);
    sel.push(0xDE);
    sel.push(0x00);
    sel.push(0x00);
    sel.push(0xFF);
    sel.extend_from_slice(&0x1234_5678u32.to_be_bytes());
    sel.push(0x2F);
    sel
}

#[test]
fn s2xv2_body_serialize_into_gives_parsed_bytes_back() {
    let sel = mode5_bh_sel();
    let d = S2Xv2SatelliteDeliverySystem::parse(&sel).unwrap();
    assert_eq!(d.serialized_len(), sel.len());
    let mut buf = vec![0u8; d.serialized_len()];
    assert_eq!(d.serialize_into(&mut buf), Ok(sel.len()));
    assert_eq!(buf, sel);
    assert_eq!(S2Xv2SatelliteDeliverySystem::parse(&buf).unwrap(), d);
}

#[test]
fn s2xv2_body_reserved_bits_round_trip_to_same_value() {
    let mut sel = mode5_bh_sel();
    sel[5] |= 0xC0;
    sel[20] |= 0x30;
    let d = S2Xv2SatelliteDeliverySystem::parse(&sel).unwrap();
    let mut buf = vec![0u8; d.serialized_len()];
    assert_eq!(d.serialize_into(&mut buf), Ok(sel.len()));
    assert_eq!(buf[5], sel[5] & 0x3F);
    assert_eq!(buf[20], sel[20] & 0xCF);
    assert_eq!(S2Xv2SatelliteDeliverySystem::parse(&buf).unwrap(), d);
}

#[test]
fn s2xv2_body_selector_without_id_writes_four_bytes_less() {
    let sel = mode5_bh_sel();
    let mut d = S2Xv2SatelliteDeliverySystem::parse(&sel).unwrap();
    d.superframe.as_mut().unwrap().beamhopping_time_plan_id = None;
    assert_eq!(d.serialized_len(), 31);
    let mut buf = vec![0xEEu8; 31];
    assert_eq!(d.serialize_into(&mut buf), Ok(31));
    assert_eq!(&buf[..26], &sel[..26]);
    assert_eq!(buf[26], 0x2F);
    assert_eq!(&buf[27..], &[0xEE, 0xEE, 0xEE, 0xEE]);
}

#[test]
fn s2xv2_body_id_without_selector_writes_four_bytes_more() {
    let mut sel = mode5_bh_sel();
    sel[20] = 0x0A;
    let mut short = sel.clone();
    short.drain(26..30);
    let mut d = S2Xv2SatelliteDeliverySystem::parse(&short).unwrap();
    assert_eq!(d.superframe.as_ref().unwrap().beamhopping_time_plan_id, None);
    d.superframe.as_mut().unwrap().beamhopping_time_plan_id = Some(0x1234_5678);
    assert_eq!(d.serialized_len(), 27);
    let mut buf = vec![0xEEu8; 31];
    assert_eq!(d.serialize_into(&mut buf), Ok(27));
    assert_eq!(buf, sel);
}

#[test]
fn s2xv2_body_serialize_into_short_buffer() {
    let sel = mode5_bh_sel();
    let d = S2Xv2SatelliteDeliverySystem::parse(&sel).unwrap();
    let mut buf = vec![0u8; 10];
    assert_eq!(d.serialize_into(&mut buf), Err(Error::OutputBufferTooSmall { need: 31, have: 10 }));
    assert_eq!(buf, vec![0u8; 10]);
}

#[test]
fn t2_body_serialize_into_full_flags() {
    let cells = [0xAA, 0xBB];
    let d = T2DeliverySystem {
        plp_id: 1,
        t2_system_id: 0x0203,
        siso_miso: Some(1),
        bandwidth: Some(2),
        guard_interval: Some(3),
        transmission_mode: Some(1),
        other_frequency_flag: Some(true),
        tfs_flag: Some(false),
        cell_loop: &cells,
    };
    assert_eq!(d.serialized_len(), 7);
    let mut buf = vec![0u8; 7];
    assert_eq!(d.serialize_into(&mut buf), Ok(7));
    assert_eq!(buf, vec![1, 2, 3, 0x48, 0x66, 0xAA, 0xBB]);
    assert_eq!(T2DeliverySystem::parse(&buf).unwrap(), d);
}

#[test]
fn t2_body_flags_with_missing_field_counted_not_written() {
    let cells = [0xAA, 0xBB];
    let d = T2DeliverySystem {
        plp_id: 1,
        t2_system_id: 0x0203,
        siso_miso: Some(1),
        bandwidth: None,
        guard_interval: Some(3),
        transmission_mode: Some(1),
        other_frequency_flag: Some(true),
        tfs_flag: Some(false),
        cell_loop: &cells,
    };
    assert_eq!(d.serialized_len(), 7);
    let mut buf = vec![0xEEu8; 7];
    assert_eq!(d.serialize_into(&mut buf), Ok(7));
    assert_eq!(buf, vec![1, 2, 3, 0xAA, 0xBB, 0xEE, 0xEE]);
}

#[test]
fn message_body_serialize_into_round_trip() {
    let sel = [0x07, b'e', b'n', b'g', b'H', b'i'];
    let d = Message::parse(&sel).unwrap();
    let mut buf = vec![0u8; d.serialized_len()];
    assert_eq!(d.serialize_into(&mut buf), Ok(6));
    assert_eq!(buf, sel.to_vec());
    let mut short = vec![0u8; 3];
    assert_eq!(d.serialize_into(&mut short), Err(Error::OutputBufferTooSmall { need: 6, have: 3 }));
}

#[test]
fn mosaic_reserved_bits_round_trip_to_same_value() {
    let bytes = [0x51, 9, 0x92, 0x14, 0x01, 0x02, 0x03, 0x04, 0x01, 0x12, 0x34];
    let d = MosaicDescriptor::parse(&bytes).unwrap();
    assert_eq!(d.serialized_len(), 11);
    let mut buf = vec![0u8; d.serialized_len()];
    assert_eq!(d.serialize_into(&mut buf), Ok(11));
    assert_eq!(buf[0], 0x51);
    assert_eq!(buf[1], 9);
    assert_eq!(buf[2] & 0x08, 0x08);
    assert_eq!(MosaicDescriptor::parse(&buf).unwrap(), d);
}

#[test]
fn extension_t2_with_missing_flag_field_sized_as_flags_present() {
    let cells = [0xAA, 0xBB];
    let d = ExtensionDescriptor {
        tag_extension: 0x04,
        body: ExtensionBody::T2DeliverySystem(T2DeliverySystem {
            plp_id: 1,
            t2_system_id: 0x0203,
            siso_miso: Some(1),
            bandwidth: None,
            guard_interval: Some(3),
            transmission_mode: Some(1),
            other_frequency_flag: Some(true),
            tfs_flag: Some(false),
            cell_loop: &cells,
        }),
    };
    assert_eq!(d.serialized_len(), 10);
    assert_eq!(d.descriptor_length(), 8);
    let mut buf = vec![0xEEu8; 10];
    assert_eq!(d.serialize_into(&mut buf), Ok(10));
    assert_eq!(buf, vec![0x7F, 8, 0x04, 1, 2, 3, 0xAA, 0xBB, 0xEE, 0xEE]);
}

fn sogi_without_id() -> ServiceProminence<'static> {
    ServiceProminence {
        sogi_list: vec![SogiEntry {
            sogi_flag: true,
            target_region_flag: false,
            service_flag: true,
            sogi_priority: 0x123,
            service_id: None,
            target_region_loop: None,
        }],
        private_data: &[0x55],
    }
}

#[test]
fn sogi_body_missing_service_id_leaves_buffer_bytes() {
    let d = sogi_without_id();
    assert_eq!(d.serialized_len(), 6);
    let mut buf = vec![0xEEu8; 7];
    assert_eq!(d.serialize_into(&mut buf), Ok(6));
    assert_eq!(buf, vec![4, 0xB1, 0x23, 0xEE, 0xEE, 0x55, 0xEE]);
}

#[test]
fn extension_sogi_missing_service_id_leaves_buffer_bytes() {
    let d = ExtensionDescriptor { tag_extension: 0x22, body: ExtensionBody::ServiceProminence(sogi_without_id()) };
    assert_eq!(d.serialized_len(), 9);
    let mut buf = vec![0xEEu8; 9];
    assert_eq!(d.serialize_into(&mut buf), Ok(9));
    assert_eq!(buf, vec![0x7F, 7, 0x22, 4, 0xB1, 0x23, 0xEE, 0xEE, 0x55]);
}

#[test]
fn t2_reserved_bits_round_trip_to_same_value() {
    let sel = [1, 2, 3, 0x4B, 0x66, 0xAA];
    let d = T2DeliverySystem::parse(&sel).unwrap();
    let mut buf = vec![0u8; d.serialized_len()];
    assert_eq!(d.serialize_into(&mut buf), Ok(6));
    assert_eq!(buf, vec![1, 2, 3, 0x48, 0x66, 0xAA]);
    assert_eq!(T2DeliverySystem::parse(&buf).unwrap(), d);
}

#[test]
fn satellite_dvbs_roll_off_bits_not_kept_by_serialization() {
    let bytes = [0x43, 11, 0x01, 0x19, 0x20, 0x00, 0x01, 0x92, 0x08 | 0x01, 0x02, 0x75, 0x00, 0x03];
    let d = SatelliteDeliverySystemDescriptor::parse(&bytes).unwrap();
    assert_eq!(d.roll_off, RollOff::Alpha025);
    assert_eq!(d.modulation_system, ModulationSystem::DvbS);
    let mut buf = vec![0u8; d.serialized_len()];
    d.serialize_into(&mut buf).unwrap();
    assert_eq!(buf[8] & 0x18, 0);
    let re = SatelliteDeliverySystemDescriptor::parse(&buf).unwrap();
    assert_eq!(re.roll_off, RollOff::Alpha035);
}
