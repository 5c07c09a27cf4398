use dvb_si::descriptors::satellite_delivery_system::{
    FecInner, ModulationSystem, ModulationType, Polarization, RollOff, SatelliteDeliverySystemDescriptor, TAG,
};
use dvb_si::Error;

const BODY_LEN: u8 = 11;

#[test]
fn parse_extracts_frequency_and_orbital_position() {
    // frequency: 11.72500 GHz → BCD 0x01 0x17 0x25 0x00 (§6.2.13.2)
    // orbital: 192.0° → BCD 0x19 0x20
    let raw: Vec<u8> = vec![
        TAG, BODY_LEN, 0x01, 0x17, 0x25, 0x00, // frequency
        0x19, 0x20, // orbital position
        0x00, // flags (all defaults: west, linear-h, alpha-035, DVB-S, auto)
        0x02, 0x75, 0x00, 0x00, // symbol rate 27.500 Msym/s, FEC 0
    ];
    let desc = SatelliteDeliverySystemDescriptor::parse(&raw).unwrap();
    assert_eq!(desc.frequency_bcd, 0x01172500);
    assert_eq!(desc.orbital_position_bcd, 0x1920);
}

#[test]
fn parse_extracts_west_east_flag() {
    // East: bit 7 = 1
    let raw_east: Vec<u8> = vec![
        TAG, BODY_LEN, 0x01, 0x17, 0x25, 0x00, 0x19, 0x20,
        0x80, // east flag set, everything else zero
        0x02, 0x75, 0x00, 0x00,
    ];
    let desc_east = SatelliteDeliverySystemDescriptor::parse(&raw_east).unwrap();
    assert!(desc_east.east, "east should be true when bit 7 is set");

    // West: bit 7 = 0
    let raw_west: Vec<u8> = vec![
        TAG, BODY_LEN, 0x01, 0x17, 0x25, 0x00, 0x19, 0x20, 0x00, // east flag clear
        0x02, 0x75, 0x00, 0x00,
    ];
    let desc_west = SatelliteDeliverySystemDescriptor::parse(&raw_west).unwrap();
    assert!(!desc_west.east, "east should be false when bit 7 is clear");
}

#[test]
fn parse_extracts_polarization_variants() {
    let pol_pairs: [(u8, Polarization); 4] = [
        (0x00, Polarization::LinearHorizontal),
        (0x20, Polarization::LinearVertical),
        (0x40, Polarization::CircularLeft),
        (0x60, Polarization::CircularRight),
    ];

    for (offset, expected_pol) in pol_pairs {
        let raw: Vec<u8> = vec![
            TAG, BODY_LEN, 0x01, 0x17, 0x25, 0x00, 0x19, 0x20,
            offset, // polarization bits
            0x02, 0x75, 0x00, 0x00,
        ];
        let desc = SatelliteDeliverySystemDescriptor::parse(&raw).unwrap();
        assert_eq!(
            desc.polarization, expected_pol,
            "polarization mismatch for offset 0x{:02x}",
            offset
        );
    }
}

#[test]
fn parse_extracts_modulation_system_and_type() {
    // DVB-S (bit 2 = 0), QPSK (bits 1-0 = 01)
    let raw: Vec<u8> = vec![
        TAG, BODY_LEN, 0x01, 0x17, 0x25, 0x00, 0x19, 0x20, 0x01, // DVB-S, QPSK
        0x02, 0x75, 0x00, 0x00,
    ];
    let desc = SatelliteDeliverySystemDescriptor::parse(&raw).unwrap();
    assert_eq!(desc.modulation_system, ModulationSystem::DvbS);
    assert_eq!(desc.modulation_type, ModulationType::Qpsk);

    // DVB-S2 (bit 2 = 1), 8PSK (bits 1-0 = 10)
    let raw2: Vec<u8> = vec![
        TAG, BODY_LEN, 0x01, 0x17, 0x25, 0x00, 0x19, 0x20,
        0x06, // DVB-S2 (0x04) + 8PSK (0x02)
        0x02, 0x75, 0x00, 0x00,
    ];
    let desc2 = SatelliteDeliverySystemDescriptor::parse(&raw2).unwrap();
    assert_eq!(desc2.modulation_system, ModulationSystem::DvbS2);
    assert_eq!(desc2.modulation_type, ModulationType::Psk8);
}

#[test]
fn parse_extracts_roll_off() {
    let roll_pairs: [(u8, RollOff); 4] = [
        (0x00, RollOff::Alpha035),
        (0x08, RollOff::Alpha025),
        (0x10, RollOff::Alpha020),
        (0x18, RollOff::Reserved(3)),
    ];

    for (offset, expected_roll) in roll_pairs {
        let raw: Vec<u8> = vec![
            TAG, BODY_LEN, 0x01, 0x17, 0x25, 0x00, 0x19, 0x20, offset, // roll-off bits
            0x02, 0x75, 0x00, 0x00,
        ];
        let desc = SatelliteDeliverySystemDescriptor::parse(&raw).unwrap();
        assert_eq!(desc.roll_off, expected_roll);
    }
}

#[test]
fn parse_extracts_symbol_rate_and_fec() {
    // symbol_rate: 27.500 Msym/s → BCD 0x027500, FEC: 5/6 → 0x4
    let raw: Vec<u8> = vec![
        TAG, BODY_LEN, 0x01, 0x17, 0x25, 0x00, 0x19, 0x20, 0x00, 0x02, 0x75, 0x00,
        0x04, // symbol_rate_bcd = 0x027500, fec_inner = 4 (Rate5_6)
    ];
    let desc = SatelliteDeliverySystemDescriptor::parse(&raw).unwrap();
    assert_eq!(desc.symbol_rate_bcd, 0x0275000);
    assert_eq!(desc.fec_inner, FecInner::Rate5_6);

    // FEC = 0x0F (NoConvCoding)
    let raw2: Vec<u8> = vec![
        TAG, BODY_LEN, 0x01, 0x17, 0x25, 0x00, 0x19, 0x20, 0x00, 0x02, 0x75, 0x00,
        0x0F, // FEC = 0x0F
    ];
    let desc2 = SatelliteDeliverySystemDescriptor::parse(&raw2).unwrap();
    assert_eq!(desc2.fec_inner, FecInner::NoConvCoding);
}

#[test]
fn satellite_delivery_system_parse_rejects_wrong_tag() {
    let raw: Vec<u8> = vec![
        0x44, // wrong tag (cable delivery system)
        BODY_LEN, 0x01, 0x17, 0x25, 0x00, 0x19, 0x20, 0x00, 0x02, 0x75, 0x00, 0x00,
    ];
    let err = SatelliteDeliverySystemDescriptor::parse(&raw).unwrap_err();
    assert!(
        matches!(err, Error::InvalidDescriptor { tag: 0x44, .. }),
        "expected InvalidDescriptor(tag=0x44), got {err:?}"
    );
}

#[test]
fn satellite_delivery_system_parse_rejects_wrong_length() {
    let raw: Vec<u8> = vec![
        TAG, 0x05, // wrong length (should be 11)
        0x11, 0x72, 0x50, 0x00, 0x19, 0x20,
    ];
    let err = SatelliteDeliverySystemDescriptor::parse(&raw).unwrap_err();
    assert!(
        matches!(
            err,
            Error::InvalidDescriptor {
                reason: "descriptor_length must equal 11",
                ..
            }
        ),
        "expected InvalidDescriptor about length, got {err:?}"
    );
}

#[test]
fn satellite_delivery_system_serialize_round_trip() {
    let desc = SatelliteDeliverySystemDescriptor {
        frequency_bcd: 0x01172500,
        orbital_position_bcd: 0x1920,
        east: true,
        polarization: Polarization::CircularRight,
        roll_off: RollOff::Alpha025,
        modulation_system: ModulationSystem::DvbS2,
        modulation_type: ModulationType::Psk8,
        symbol_rate_bcd: 0x027500,
        fec_inner: FecInner::Rate5_6,
    };

    let mut buf = vec![0u8; desc.serialized_len()];
    let written = desc.serialize_into(&mut buf).unwrap();
    assert_eq!(written, desc.serialized_len());

    let reparsed = SatelliteDeliverySystemDescriptor::parse(&buf).unwrap();
    assert_eq!(desc, reparsed);
}

#[test]
fn reserved_roll_off_round_trips() {
    let desc = SatelliteDeliverySystemDescriptor {
        frequency_bcd: 0x01172500,
        orbital_position_bcd: 0x1920,
        east: true,
        polarization: Polarization::CircularRight,
        roll_off: RollOff::Reserved(3),
        modulation_system: ModulationSystem::DvbS2,
        modulation_type: ModulationType::Psk8,
        symbol_rate_bcd: 0x027500,
        fec_inner: FecInner::Rate5_6,
    };

    let mut buf = vec![0u8; desc.serialized_len()];
    desc.serialize_into(&mut buf).unwrap();
    assert_eq!(buf[8] & 0x18, 0x18); // roll_off bits = 0b11

    let reparsed = SatelliteDeliverySystemDescriptor::parse(&buf).unwrap();
    assert_eq!(reparsed.roll_off, RollOff::Reserved(3));
}

#[test]
fn frequency_hz_round_trip() {
    let mut desc = SatelliteDeliverySystemDescriptor {
        frequency_bcd: 0,
        orbital_position_bcd: 0x1920,
        east: true,
        polarization: Polarization::LinearHorizontal,
        roll_off: RollOff::Alpha035,
        modulation_system: ModulationSystem::DvbS,
        modulation_type: ModulationType::Auto,
        symbol_rate_bcd: 0x027500,
        fec_inner: FecInner::Rate5_6,
    };
    desc.set_frequency_hz(11_725_000_000).unwrap();
    assert_eq!(desc.frequency_hz(), Some(11_725_000_000));
    assert_eq!(desc.frequency_bcd, 0x01172500);
}


fn sample() -> SatelliteDeliverySystemDescriptor {
    SatelliteDeliverySystemDescriptor {
        frequency_bcd: 0,
        orbital_position_bcd: 0x1920,
        east: true,
        polarization: Polarization::LinearHorizontal,
        roll_off: RollOff::Alpha035,
        modulation_system: ModulationSystem::DvbS,
        modulation_type: ModulationType::Auto,
        symbol_rate_bcd: 0x027500,
        fec_inner: FecInner::Rate5_6,
    }
}

#[test]
fn satellite_orbital_position_tenths() {
    let mut d = sample();
    assert_eq!(d.orbital_position_tenths(), Some(1920));
    d.set_orbital_position_tenths(130).unwrap();
    assert_eq!(d.orbital_position_bcd, 0x0130);
    assert!(matches!(d.set_orbital_position_tenths(10_000).unwrap_err(), Error::ValueOutOfRange { .. }));
    assert_eq!(d.orbital_position_bcd, 0x0130);
    d.orbital_position_bcd = 0x19A0;
    assert_eq!(d.orbital_position_tenths(), None);
}
