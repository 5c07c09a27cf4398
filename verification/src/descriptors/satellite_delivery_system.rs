//! Satellite Delivery System Descriptor — ETSI EN 300 468 §6.2.13.2 (tag 0x43).
//!
//! Carried inside the NIT's transport_stream_loop second descriptor loop.
//! Conveys carrier tuning parameters for a DVB-S / DVB-S2 transponder.

use super::{body_of, descriptor_body, emit, emitted, encode_bcd_field, framed, framed_prefix, header_error, header_ok, lemma_framed_parses, lemma_reframe, HEADER_LEN};
use crate::bcd::{bcd_digits_ok, bcd_encode, bcd_to_decimal, bcd_value, lemma_bcd_decode_encode, lemma_bcd_encode_bound, lemma_bcd_value_bound, pow10, pow16};
use crate::error::{is_invalid, is_out_of_range, Error};
use crate::wire::{be16, be32, bit, lemma_be16_of_bytes, lemma_be32_of_bytes, lemma_bytes_of_be16, lemma_bytes_of_be32, push_u16, push_u32, push_u8, read_u16, read_u32, u16_bytes, u32_bytes};
use vstd::prelude::*;

verus! {

/// Descriptor tag for satellite_delivery_system_descriptor.
pub const TAG: u8 = 0x43;

/// The fixed body length.
const BODY_LEN: u8 = 11;

/// Polarization (§6.2.13.2 Table 38).
#[derive(Debug, Clone, Copy, PartialEq, Eq)]
pub enum Polarization {
    /// Linear horizontal.
    LinearHorizontal,
    /// Linear vertical.
    LinearVertical,
    /// Circular left.
    CircularLeft,
    /// Circular right.
    CircularRight,
}

proof fn lemma_low2(v: u8)
    by (bit_vector)
    ensures
        v <= 3 ==> v & 0x03 == v,
        v & 0x03 <= 3,
{
}

impl Polarization {
    /// `from_u8` gives back the code of every variant.
    pub proof fn lemma_to_from(self)
        ensures
            Self::spec_from_u8(self.spec_to_u8()) == self,
    {
        lemma_low2(self.spec_to_u8());
    }

    /// `to_u8` gives back the low two bits `from_u8` read.
    pub proof fn lemma_from_to(v: u8)
        ensures
            Self::spec_from_u8(v).spec_to_u8() == v & 0x03,
    {
        lemma_low2(v);
    }

    /// The variant for the low two bits of `v`.
    pub open spec fn spec_from_u8(v: u8) -> Self {
        let b = v & 0x03;
        if b == 0 {
            Polarization::LinearHorizontal
        } else if b == 1 {
            Polarization::LinearVertical
        } else if b == 2 {
            Polarization::CircularLeft
        } else {
            Polarization::CircularRight
        }
    }

    /// The two-bit code of a variant.
    pub open spec fn spec_to_u8(self) -> u8 {
        match self {
            Polarization::LinearHorizontal => 0,
            Polarization::LinearVertical => 1,
            Polarization::CircularLeft => 2,
            Polarization::CircularRight => 3,
        }
    }

    /// The variant for the low two bits of `v` (the upper bits are ignored).
    pub fn from_u8(v: u8) -> (r: Self)
        ensures
            r == Self::spec_from_u8(v),
    {
        let b = v & 0x03;
        if b == 0 {
            Polarization::LinearHorizontal
        } else if b == 1 {
            Polarization::LinearVertical
        } else if b == 2 {
            Polarization::CircularLeft
        } else {
            Polarization::CircularRight
        }
    }

    /// The two-bit code of this value.
    pub fn to_u8(self) -> (r: u8)
        ensures
            r == self.spec_to_u8(),
    {
        match self {
            Polarization::LinearHorizontal => 0,
            Polarization::LinearVertical => 1,
            Polarization::CircularLeft => 2,
            Polarization::CircularRight => 3,
        }
    }
}

/// Modulation system (§6.2.13.2 Table 40: DVB-S or DVB-S2).
#[derive(Debug, Clone, Copy, PartialEq, Eq)]
pub enum ModulationSystem {
    /// DVB-S (first generation).
    DvbS,
    /// DVB-S2 (second generation).
    DvbS2,
}

/// Modulation type (§6.2.13.2 Table 41).
#[derive(Debug, Clone, Copy, PartialEq, Eq)]
pub enum ModulationType {
    /// Auto-detect.
    Auto,
    /// QPSK.
    Qpsk,
    /// 8PSK.
    Psk8,
    /// 16QAM.
    Qam16,
}

/// Roll-off factor (§6.2.13.2 Table 39, DVB-S2 only; also used by S2X with
/// extended values per Table 144).
#[derive(Debug, Clone, Copy, PartialEq, Eq)]
pub enum RollOff {
    /// 0.35 (DVB-S default).
    Alpha035,
    /// 0.25 (DVB-S2 common).
    Alpha025,
    /// 0.20 (DVB-S2 narrow).
    Alpha020,
    /// Reserved — carries the raw value (2-bit for DVB-S/S2, 3-bit for S2X).
    Reserved(u8),
}

impl RollOff {
    /// `to_u8` gives back the raw value that `from_u8` read.
    pub proof fn lemma_from_to(v: u8)
        ensures
            Self::spec_from_u8(v).spec_to_u8() == v,
    {
    }

    /// `from_u8` gives back every well-formed variant from its raw value.
    pub proof fn lemma_to_from(self)
        requires
            self.wf(),
        ensures
            Self::spec_from_u8(self.spec_to_u8()) == self,
    {
    }

    /// The variant for a raw value.
    pub open spec fn spec_from_u8(v: u8) -> Self {
        if v == 0 {
            RollOff::Alpha035
        } else if v == 1 {
            RollOff::Alpha025
        } else if v == 2 {
            RollOff::Alpha020
        } else {
            RollOff::Reserved(v)
        }
    }

    /// The raw value of a variant.
    pub open spec fn spec_to_u8(self) -> u8 {
        match self {
            RollOff::Alpha035 => 0,
            RollOff::Alpha025 => 1,
            RollOff::Alpha020 => 2,
            RollOff::Reserved(v) => v,
        }
    }

    /// A `Reserved` value is not one of the named codes.
    pub open spec fn wf(self) -> bool {
        match self {
            RollOff::Reserved(v) => v > 2,
            _ => true,
        }
    }

    /// Constructs from a raw value; every value maps to a variant.
    pub fn from_u8(v: u8) -> (r: Self)
        ensures
            r == Self::spec_from_u8(v),
    {
        if v == 0 {
            RollOff::Alpha035
        } else if v == 1 {
            RollOff::Alpha025
        } else if v == 2 {
            RollOff::Alpha020
        } else {
            RollOff::Reserved(v)
        }
    }

    /// Inverse of `from_u8`; `Reserved` emits its stored value.
    pub fn to_u8(self) -> (r: u8)
        ensures
            r == self.spec_to_u8(),
    {
        match self {
            RollOff::Alpha035 => 0,
            RollOff::Alpha025 => 1,
            RollOff::Alpha020 => 2,
            RollOff::Reserved(v) => v,
        }
    }
}

/// FEC inner code (EN 300 468 Table 35), a 4-bit field.
#[derive(Debug, Clone, Copy, PartialEq, Eq)]
pub enum FecInner {
    /// 0 — not defined.
    NotDefined,
    /// 1 — 1/2 conv. code rate.
    Rate1_2,
    /// 2 — 2/3 conv. code rate.
    Rate2_3,
    /// 3 — 3/4 conv. code rate.
    Rate3_4,
    /// 4 — 5/6 conv. code rate.
    Rate5_6,
    /// 5 — 7/8 conv. code rate.
    Rate7_8,
    /// 6 — 8/9 conv. code rate.
    Rate8_9,
    /// 7 — 3/5 conv. code rate.
    Rate3_5,
    /// 8 — 4/5 conv. code rate.
    Rate4_5,
    /// 9 — 9/10 conv. code rate.
    Rate9_10,
    /// 15 — no conv. coding.
    NoConvCoding,
    /// 10–14 — reserved for future use (the raw value).
    Reserved(u8),
}

impl FecInner {
    /// `to_u8` gives back the raw value that `from_u8` read.
    pub proof fn lemma_from_to(v: u8)
        ensures
            Self::spec_from_u8(v).spec_to_u8() == v,
    {
    }

    /// `from_u8` gives back every well-formed variant from its raw value.
    pub proof fn lemma_to_from(self)
        requires
            self.wf(),
        ensures
            Self::spec_from_u8(self.spec_to_u8()) == self,
    {
    }

    /// The variant for a raw value.
    pub open spec fn spec_from_u8(v: u8) -> Self {
        if v == 0 {
            FecInner::NotDefined
        } else if v == 1 {
            FecInner::Rate1_2
        } else if v == 2 {
            FecInner::Rate2_3
        } else if v == 3 {
            FecInner::Rate3_4
        } else if v == 4 {
            FecInner::Rate5_6
        } else if v == 5 {
            FecInner::Rate7_8
        } else if v == 6 {
            FecInner::Rate8_9
        } else if v == 7 {
            FecInner::Rate3_5
        } else if v == 8 {
            FecInner::Rate4_5
        } else if v == 9 {
            FecInner::Rate9_10
        } else if v == 15 {
            FecInner::NoConvCoding
        } else {
            FecInner::Reserved(v)
        }
    }

    /// The raw value of a variant.
    pub open spec fn spec_to_u8(self) -> u8 {
        match self {
            FecInner::NotDefined => 0,
            FecInner::Rate1_2 => 1,
            FecInner::Rate2_3 => 2,
            FecInner::Rate3_4 => 3,
            FecInner::Rate5_6 => 4,
            FecInner::Rate7_8 => 5,
            FecInner::Rate8_9 => 6,
            FecInner::Rate3_5 => 7,
            FecInner::Rate4_5 => 8,
            FecInner::Rate9_10 => 9,
            FecInner::NoConvCoding => 15,
            FecInner::Reserved(v) => v,
        }
    }

    /// A `Reserved` value lies in 10..=14.
    pub open spec fn wf(self) -> bool {
        match self {
            FecInner::Reserved(v) => 10 <= v <= 14,
            _ => true,
        }
    }

    /// Constructs from a raw value; every value maps to a variant.
    pub fn from_u8(v: u8) -> (r: Self)
        ensures
            r == Self::spec_from_u8(v),
    {
        if v == 0 {
            FecInner::NotDefined
        } else if v == 1 {
            FecInner::Rate1_2
        } else if v == 2 {
            FecInner::Rate2_3
        } else if v == 3 {
            FecInner::Rate3_4
        } else if v == 4 {
            FecInner::Rate5_6
        } else if v == 5 {
            FecInner::Rate7_8
        } else if v == 6 {
            FecInner::Rate8_9
        } else if v == 7 {
            FecInner::Rate3_5
        } else if v == 8 {
            FecInner::Rate4_5
        } else if v == 9 {
            FecInner::Rate9_10
        } else if v == 15 {
            FecInner::NoConvCoding
        } else {
            FecInner::Reserved(v)
        }
    }

    /// The raw value of this code.
    pub fn to_u8(self) -> (r: u8)
        ensures
            r == self.spec_to_u8(),
    {
        match self {
            FecInner::NotDefined => 0,
            FecInner::Rate1_2 => 1,
            FecInner::Rate2_3 => 2,
            FecInner::Rate3_4 => 3,
            FecInner::Rate5_6 => 4,
            FecInner::Rate7_8 => 5,
            FecInner::Rate8_9 => 6,
            FecInner::Rate3_5 => 7,
            FecInner::Rate4_5 => 8,
            FecInner::Rate9_10 => 9,
            FecInner::NoConvCoding => 15,
            FecInner::Reserved(v) => v,
        }
    }
}

/// Satellite Delivery System Descriptor.
#[derive(Debug, Clone, PartialEq, Eq)]
pub struct SatelliteDeliverySystemDescriptor {
    /// 32-bit BCD frequency in GHz (e.g. `0x01172500` = 11.72500 GHz).
    pub frequency_bcd: u32,
    /// 16-bit BCD orbital position in tenths of a degree (e.g. 0x1920 = 192.0°).
    pub orbital_position_bcd: u16,
    /// False = west, true = east.
    pub east: bool,
    /// Polarization.
    pub polarization: Polarization,
    /// DVB-S2 roll-off factor. Meaningful only for DVB-S2; for DVB-S the bits
    /// are reserved_zero_future_use and serialize writes them as 0.
    pub roll_off: RollOff,
    /// Modulation system.
    pub modulation_system: ModulationSystem,
    /// Modulation type.
    pub modulation_type: ModulationType,
    /// 28-bit BCD symbol rate in Msym/s (e.g. 0x0275000 = 27.5 Msym/s).
    pub symbol_rate_bcd: u32,
    /// 4-bit FEC inner code.
    pub fec_inner: FecInner,
}

/// The flags byte of the descriptor.
pub open spec fn sat_flags(d: SatelliteDeliverySystemDescriptor) -> u8 {
    (bit(d.east) << 7u8) | (d.polarization.spec_to_u8() << 5u8) | (if d.modulation_system
        == ModulationSystem::DvbS2 {
        (d.roll_off.spec_to_u8() & 0x03) << 3u8
    } else {
        0u8
    }) | (if d.modulation_system == ModulationSystem::DvbS2 {
        4u8
    } else {
        0u8
    }) | match d.modulation_type {
        ModulationType::Auto => 0u8,
        ModulationType::Qpsk => 1u8,
        ModulationType::Psk8 => 2u8,
        ModulationType::Qam16 => 3u8,
    }
}

/// The modulation type of the low two bits of `v`.
pub open spec fn modulation_type_of(v: u8) -> ModulationType {
    let b = v & 0x03;
    if b == 0 {
        ModulationType::Auto
    } else if b == 1 {
        ModulationType::Qpsk
    } else if b == 2 {
        ModulationType::Psk8
    } else {
        ModulationType::Qam16
    }
}

proof fn lemma_sat_flags(f: u8, e: u8, p: u8, r: u8, s: u8, m: u8)
    by (bit_vector)
    requires
        e <= 1,
        p <= 3,
        s <= 1,
        m <= 3,
    ensures
        ({
            let x = (e << 7u8) | (p << 5u8) | (if s == 1 { (r & 0x03) << 3u8 } else { 0u8 }) | (if s == 1 {
                4u8
            } else {
                0u8
            }) | m;
            &&& (x & 0x80 != 0) == (e == 1)
            &&& (x >> 5u8) & 0x03 == p
            &&& ((x >> 3u8) & 0x03) == (if s == 1 { r & 0x03 } else { 0 })
            &&& (x >> 2u8) & 0x01 == s
            &&& x & 0x03 == m
        }),
        (s == 1 <==> (f >> 2u8) & 0x01 == 1) && (s == 1 || s == 0) && e == (if f & 0x80 != 0 { 1u8 } else {
            0u8
        }) && p == (f >> 5u8) & 0x03 && m == f & 0x03 && (s == 0 ==> (f >> 3u8) & 0x03 == 0) && r == (f
            >> 3u8) & 0x03 ==> (e << 7u8) | (p << 5u8) | (if s == 1 { (r & 0x03) << 3u8 } else { 0u8 }) | (if s
            == 1 { 4u8 } else { 0u8 }) | m == f,
        (f >> 5u8) & 0x03 <= 3,
        (f >> 3u8) & 0x03 <= 3,
        (f >> 2u8) & 0x01 <= 1,
        r <= 3 ==> r & 0x03 == r,
        f & 0x03 <= 3,
{
}

proof fn lemma_sat_rate(x: u32, sr: u32, fec: u8)
    by (bit_vector)
    ensures
        sr < 0x1000_0000 && fec < 16 ==> {
            let y = ((sr & 0x0FFF_FFFF) << 4u32) | ((fec as u32) & 0x0F);
            &&& y >> 4u32 == sr
            &&& (y & 0x0F) as u8 == fec
        },
        ((((x >> 4u32) & 0x0FFF_FFFF) << 4u32) | ((((x & 0x0F) as u8) as u32) & 0x0F)) == x,
        x >> 4u32 < 0x1000_0000,
        ((x & 0x0F) as u8) < 16,
{
}

impl SatelliteDeliverySystemDescriptor {
    /// Parsing succeeds on exactly these bytes.
    pub open spec fn bytes_ok(s: Seq<u8>) -> bool {
        header_ok(s, TAG) && s[1] == 11
    }

    /// The error reported for bytes that do not parse.
    pub open spec fn bytes_error(e: Error, s: Seq<u8>) -> bool {
        if header_ok(s, TAG) {
            is_invalid(e, TAG)
        } else {
            header_error(e, s, TAG)
        }
    }

    /// The roll-off bits of a DVB-S carrier are zero.
    pub open spec fn canonical(b: Seq<u8>) -> bool {
        (b[6] >> 2u8) & 0x01 == 0 ==> (b[6] >> 3u8) & 0x03 == 0
    }

    /// `self` is what parsing the eleven body bytes `b` yields.
    pub open spec fn decodes(&self, b: Seq<u8>) -> bool {
        let f = b[6];
        let x = be32(b, 7) as u32;
        &&& self.frequency_bcd == be32(b, 0)
        &&& self.orbital_position_bcd == be16(b, 4)
        &&& self.east == (f & 0x80 != 0)
        &&& self.polarization == Polarization::spec_from_u8((f >> 5u8) & 0x03)
        &&& self.roll_off == RollOff::spec_from_u8((f >> 3u8) & 0x03)
        &&& self.modulation_system == if (f >> 2u8) & 0x01 == 0 {
            ModulationSystem::DvbS
        } else {
            ModulationSystem::DvbS2
        }
        &&& self.modulation_type == modulation_type_of(f)
        &&& self.symbol_rate_bcd == x >> 4u32
        &&& self.fec_inner == FecInner::spec_from_u8((x & 0x0F) as u8)
    }

    /// The body bytes.
    pub open spec fn body_bytes(&self) -> Seq<u8> {
        u32_bytes(self.frequency_bcd) + u16_bytes(self.orbital_position_bcd) + seq![sat_flags(*self)]
            + u32_bytes(((self.symbol_rate_bcd & 0x0FFF_FFFF) << 4u32) | ((self.fec_inner.spec_to_u8() as u32) & 0x0F))
    }

    /// The complete wire encoding.
    pub open spec fn wire(&self) -> Seq<u8> {
        framed(TAG, self.body_bytes())
    }

    /// The fields fit the wire: a DVB-S carrier has the default roll-off, a
    /// DVB-S2 roll-off fits two bits, the symbol rate 28 bits and the FEC code 4 bits.
    pub open spec fn wf(&self) -> bool {
        &&& self.roll_off.wf()
        &&& self.roll_off.spec_to_u8() <= 3
        &&& self.modulation_system == ModulationSystem::DvbS ==> self.roll_off == RollOff::Alpha035
        &&& self.symbol_rate_bcd < 0x1000_0000
        &&& self.fec_inner.wf()
    }

    /// `self` with another frequency field.
    pub open spec fn with_frequency_bcd(self, v: u32) -> Self {
        SatelliteDeliverySystemDescriptor { frequency_bcd: v, ..self }
    }

    /// `self` with another symbol rate field.
    pub open spec fn with_symbol_rate_bcd(self, v: u32) -> Self {
        SatelliteDeliverySystemDescriptor { symbol_rate_bcd: v, ..self }
    }

    /// The frequency in Hz (10 kHz field resolution), if the BCD digits are valid.
    pub open spec fn spec_frequency_hz(&self) -> Option<u64> {
        if bcd_digits_ok(self.frequency_bcd as nat, 8) {
            Some((bcd_value(self.frequency_bcd as nat, 8) * 10_000) as u64)
        } else {
            None
        }
    }

    /// The symbol rate in symbols/s (100 sym/s field resolution), if the BCD digits are valid.
    pub open spec fn spec_symbol_rate_sps(&self) -> Option<u64> {
        if bcd_digits_ok(self.symbol_rate_bcd as nat, 7) {
            Some((bcd_value(self.symbol_rate_bcd as nat, 7) * 100) as u64)
        } else {
            None
        }
    }

    /// Decodes the 32-bit BCD frequency to Hz; `None` if a nibble is not a decimal digit.
    pub fn frequency_hz(&self) -> (r: Option<u64>)
        ensures
            r == self.spec_frequency_hz(),
    {
        match bcd_to_decimal(self.frequency_bcd as u64, 8) {
            Some(v) => {
                proof {
                    lemma_bcd_value_bound(self.frequency_bcd as nat, 8);
                    reveal_with_fuel(pow10, 9);
                }
                Some(v * 10_000)
            },
            None => None,
        }
    }

    /// Sets the frequency from Hz, as 8 BCD digits of 10 kHz (finer precision is
    /// dropped); `ValueOutOfRange` when it needs more digits, leaving `self` unchanged.
    pub fn set_frequency_hz(&mut self, hz: u64) -> (r: Result<(), Error>)
        ensures
            r is Ok <==> hz / 10_000 < pow10(8),
            r is Ok ==> *final(self) == old(self).with_frequency_bcd(bcd_encode((hz / 10_000) as nat, 8) as u32),
            r matches Err(e) ==> is_out_of_range(e) && *final(self) == *old(self),
    {
        let v = encode_bcd_field(hz / 10_000, 8, "SatelliteDeliverySystemDescriptor::frequency")?;
        proof {
            lemma_bcd_encode_bound((hz / 10_000) as nat, 8);
            reveal_with_fuel(pow16, 9);
        }
        self.frequency_bcd = v as u32;
        Ok(())
    }

    /// Decodes the 28-bit BCD symbol rate to symbols/s; `None` if a nibble is not a decimal digit.
    pub fn symbol_rate_sps(&self) -> (r: Option<u64>)
        ensures
            r == self.spec_symbol_rate_sps(),
    {
        match bcd_to_decimal(self.symbol_rate_bcd as u64, 7) {
            Some(v) => {
                proof {
                    lemma_bcd_value_bound(self.symbol_rate_bcd as nat, 7);
                    reveal_with_fuel(pow10, 8);
                }
                Some(v * 100)
            },
            None => None,
        }
    }

    /// Sets the symbol rate from symbols/s, as 7 BCD digits of 100 sym/s;
    /// `ValueOutOfRange` when it needs more digits, leaving `self` unchanged.
    pub fn set_symbol_rate_sps(&mut self, sps: u64) -> (r: Result<(), Error>)
        ensures
            r is Ok <==> sps / 100 < pow10(7),
            r is Ok ==> *final(self) == old(self).with_symbol_rate_bcd(bcd_encode((sps / 100) as nat, 7) as u32),
            r matches Err(e) ==> is_out_of_range(e) && *final(self) == *old(self),
    {
        let v = encode_bcd_field(sps / 100, 7, "SatelliteDeliverySystemDescriptor::symbol_rate")?;
        proof {
            lemma_bcd_encode_bound((sps / 100) as nat, 7);
            reveal_with_fuel(pow16, 8);
        }
        self.symbol_rate_bcd = v as u32;
        Ok(())
    }

    /// The orbital position in tenths of a degree, if its four BCD digits are valid.
    pub fn orbital_position_tenths(&self) -> (r: Option<u64>)
        ensures
            r == (if bcd_digits_ok(self.orbital_position_bcd as nat, 4) {
                Some(bcd_value(self.orbital_position_bcd as nat, 4) as u64)
            } else {
                None
            }),
    {
        proof {
            lemma_bcd_value_bound(self.orbital_position_bcd as nat, 4);
            reveal_with_fuel(pow10, 5);
        }
        bcd_to_decimal(self.orbital_position_bcd as u64, 4)
    }

    /// Sets the orbital position from tenths of a degree as 4 BCD digits;
    /// `ValueOutOfRange` (leaving `self` unchanged) when it needs more digits.
    pub fn set_orbital_position_tenths(&mut self, tenths: u64) -> (r: Result<(), Error>)
        ensures
            r is Ok <==> tenths < pow10(4),
            r is Ok ==> *final(self) == (SatelliteDeliverySystemDescriptor {
                orbital_position_bcd: bcd_encode(tenths as nat, 4) as u16,
                ..*old(self)
            }),
            r matches Err(e) ==> is_out_of_range(e) && *final(self) == *old(self),
    {
        let v = encode_bcd_field(tenths, 4, "SatelliteDeliverySystemDescriptor::orbital_position")?;
        proof {
            lemma_bcd_encode_bound(tenths as nat, 4);
            reveal_with_fuel(pow16, 5);
        }
        self.orbital_position_bcd = v as u16;
        Ok(())
    }

    /// Parses a satellite delivery system descriptor from the front of `bytes`.
    pub fn parse(bytes: &[u8]) -> (r: Result<Self, Error>)
        ensures
            r is Ok <==> Self::bytes_ok(bytes@),
            r matches Ok(d) ==> d.decodes(body_of(bytes@)),
            r matches Err(e) ==> Self::bytes_error(e, bytes@),
    {
        let body = descriptor_body(bytes, TAG, "SatelliteDeliverySystemDescriptor", "expected tag 0x43")?;
        if body.len() != BODY_LEN as usize {
            return Err(Error::InvalidDescriptor { tag: TAG, reason: "descriptor_length must equal 11" });
        }
        let frequency_bcd = read_u32(body, 0);
        let orbital_position_bcd = read_u16(body, 4);
        let flags = body[6];
        let east = (flags & 0x80) != 0;
        let polarization = Polarization::from_u8((flags >> 5u8) & 0x03);
        let roll_off = RollOff::from_u8((flags >> 3u8) & 0x03);
        let modulation_system = if (flags >> 2u8) & 0x01 == 0 {
            ModulationSystem::DvbS
        } else {
            ModulationSystem::DvbS2
        };
        let mod_type_raw = flags & 0x03;
        let modulation_type = if mod_type_raw == 0 {
            ModulationType::Auto
        } else if mod_type_raw == 1 {
            ModulationType::Qpsk
        } else if mod_type_raw == 2 {
            ModulationType::Psk8
        } else {
            ModulationType::Qam16
        };
        let symbol_rate_and_fec = read_u32(body, 7);
        let symbol_rate_bcd = symbol_rate_and_fec >> 4u32;
        let fec_inner = FecInner::from_u8((symbol_rate_and_fec & 0x0F) as u8);
        Ok(
            SatelliteDeliverySystemDescriptor {
                frequency_bcd,
                orbital_position_bcd,
                east,
                polarization,
                roll_off,
                modulation_system,
                modulation_type,
                symbol_rate_bcd,
                fec_inner,
            },
        )
    }

    /// Length of the wire encoding.
    pub fn serialized_len(&self) -> (n: usize)
        ensures
            n == self.wire().len(),
    {
        HEADER_LEN + BODY_LEN as usize
    }

    /// Writes the descriptor to the front of `buf`.
    pub fn serialize_into(&self, buf: &mut [u8]) -> (r: Result<usize, Error>)
        ensures
            emitted(r, old(buf)@, final(buf)@, self.wire()),
    {
        let mut v: Vec<u8> = Vec::new();
        push_u8(&mut v, TAG);
        push_u8(&mut v, BODY_LEN);
        push_u32(&mut v, self.frequency_bcd);
        push_u16(&mut v, self.orbital_position_bcd);
        let e: u8 = if self.east {
            1
        } else {
            0
        };
        let s2 = match self.modulation_system {
            ModulationSystem::DvbS => false,
            ModulationSystem::DvbS2 => true,
        };
        let roll: u8 = if s2 {
            (self.roll_off.to_u8() & 0x03) << 3u8
        } else {
            0
        };
        let ms: u8 = if s2 {
            4
        } else {
            0
        };
        let mt: u8 = match self.modulation_type {
            ModulationType::Auto => 0,
            ModulationType::Qpsk => 1,
            ModulationType::Psk8 => 2,
            ModulationType::Qam16 => 3,
        };
        push_u8(&mut v, (e << 7u8) | (self.polarization.to_u8() << 5u8) | roll | ms | mt);
        push_u32(&mut v, ((self.symbol_rate_bcd & 0x0FFF_FFFF) << 4u32) | ((self.fec_inner.to_u8() as u32) & 0x0F));
        assert(v@ =~= self.wire());
        emit(buf, &v)
    }
}

/// Encoding a well-formed satellite delivery system descriptor and parsing the bytes gives it back.
pub proof fn lemma_satellite_delivery_system_encode_parse(d: SatelliteDeliverySystemDescriptor)
    requires
        d.wf(),
    ensures
        SatelliteDeliverySystemDescriptor::bytes_ok(d.wire()),
        d.decodes(body_of(d.wire())),
{
    let b = d.body_bytes();
    lemma_framed_parses(TAG, b);
    lemma_be32_of_bytes(d.frequency_bcd);
    lemma_be16_of_bytes(d.orbital_position_bcd);
    assert(b.subrange(0, 4) =~= u32_bytes(d.frequency_bcd));
    assert(b.subrange(4, 6) =~= u16_bytes(d.orbital_position_bcd));
    let y = ((d.symbol_rate_bcd & 0x0FFF_FFFF) << 4u32) | ((d.fec_inner.spec_to_u8() as u32) & 0x0F);
    lemma_be32_of_bytes(y);
    assert(b.subrange(7, 11) =~= u32_bytes(y));
    lemma_sat_rate(0, d.symbol_rate_bcd, d.fec_inner.spec_to_u8());
    let s: u8 = if d.modulation_system == ModulationSystem::DvbS2 { 1 } else { 0 };
    let m: u8 = match d.modulation_type {
        ModulationType::Auto => 0u8,
        ModulationType::Qpsk => 1u8,
        ModulationType::Psk8 => 2u8,
        ModulationType::Qam16 => 3u8,
    };
    lemma_sat_flags(0, bit(d.east), d.polarization.spec_to_u8(), d.roll_off.spec_to_u8(), s, m);
    let x = be32(b, 7) as u32;
    assert(x == y);
    assert(FecInner::spec_from_u8(d.fec_inner.spec_to_u8()) == d.fec_inner);
    d.polarization.lemma_to_from();
    assert(RollOff::spec_from_u8(d.roll_off.spec_to_u8()) == d.roll_off);
}

/// Parsing a satellite delivery system descriptor whose reserved roll-off bits
/// are zero and encoding the result gives back its bytes.
pub proof fn lemma_satellite_delivery_system_parse_encode(s: Seq<u8>, d: SatelliteDeliverySystemDescriptor)
    requires
        SatelliteDeliverySystemDescriptor::bytes_ok(s),
        SatelliteDeliverySystemDescriptor::canonical(body_of(s)),
        d.decodes(body_of(s)),
    ensures
        d.wire() == framed_prefix(s),
        d.wf(),
{
    let b = body_of(s);
    let f = b[6];
    lemma_bytes_of_be32(b, 0);
    lemma_bytes_of_be16(b, 4);
    lemma_bytes_of_be32(b, 7);
    let x = be32(b, 7) as u32;
    lemma_sat_rate(x, 0, 0);
    let sv: u8 = if (f >> 2u8) & 0x01 == 0 { 0 } else { 1 };
    lemma_sat_flags(f, 0, 0, 0, 0, 0);
    lemma_sat_flags(f, if f & 0x80 != 0 { 1u8 } else { 0u8 }, (f >> 5u8) & 0x03, (f >> 3u8) & 0x03, sv, f & 0x03);
    Polarization::lemma_from_to((f >> 5u8) & 0x03);
    lemma_low2((f >> 5u8) & 0x03);
    assert(d.body_bytes() =~= b);
    lemma_reframe(s, TAG);
}


/// Setting the frequency from Hz and reading it back gives the frequency
/// rounded down to 10 kHz.
pub proof fn lemma_satellite_set_get_frequency(d: SatelliteDeliverySystemDescriptor, hz: u64)
    requires
        hz / 10_000 < pow10(8),
    ensures
        d.with_frequency_bcd(bcd_encode((hz / 10_000) as nat, 8) as u32).spec_frequency_hz() == Some(
            ((hz / 10_000) * 10_000) as u64,
        ),
{
    lemma_bcd_encode_bound((hz / 10_000) as nat, 8);
    reveal_with_fuel(pow16, 9);
    lemma_bcd_decode_encode((hz / 10_000) as nat, 8);
}

/// Setting the symbol rate from symbols/s and reading it back gives the rate
/// rounded down to 100 symbols/s.
pub proof fn lemma_satellite_set_get_symbol_rate(d: SatelliteDeliverySystemDescriptor, sps: u64)
    requires
        sps / 100 < pow10(7),
    ensures
        d.with_symbol_rate_bcd(bcd_encode((sps / 100) as nat, 7) as u32).spec_symbol_rate_sps() == Some(
            ((sps / 100) * 100) as u64,
        ),
{
    lemma_bcd_encode_bound((sps / 100) as nat, 7);
    reveal_with_fuel(pow16, 8);
    lemma_bcd_decode_encode((sps / 100) as nat, 7);
}


/// Setting the orbital position from tenths of a degree and reading it back
/// gives the same tenths.
pub proof fn lemma_satellite_set_get_orbital(tenths: u64)
    requires
        tenths < pow10(4),
    ensures
        bcd_digits_ok(bcd_encode(tenths as nat, 4) as u16 as nat, 4),
        bcd_value(bcd_encode(tenths as nat, 4) as u16 as nat, 4) == tenths,
{
    lemma_bcd_encode_bound(tenths as nat, 4);
    reveal_with_fuel(pow16, 5);
    lemma_bcd_decode_encode(tenths as nat, 4);
}

/// A parsed SatelliteDeliverySystemDescriptor whose roll-off bits are zero under DVB-S
/// (the only roll-off that DVB-S encodes) is well formed: it encodes again, and parsing
/// that encoding yields it back.
pub proof fn lemma_satellite_delivery_system_reparse(s: Seq<u8>, d: SatelliteDeliverySystemDescriptor)
    requires
        SatelliteDeliverySystemDescriptor::bytes_ok(s),
        SatelliteDeliverySystemDescriptor::canonical(body_of(s)),
        d.decodes(body_of(s)),
    ensures
        d.wf(),
        SatelliteDeliverySystemDescriptor::bytes_ok(d.wire()),
        d.decodes(body_of(d.wire())),
{
    lemma_satellite_delivery_system_parse_encode(s, d);
    lemma_satellite_delivery_system_encode_parse(d);
}

/// Parsing, encoding and parsing again gives the same value: whatever parses
/// from the encoding of a parsed SatelliteDeliverySystemDescriptor equals it.
pub proof fn lemma_satellite_delivery_system_round_trip(s: Seq<u8>, d: SatelliteDeliverySystemDescriptor, d2: SatelliteDeliverySystemDescriptor)
    requires
        SatelliteDeliverySystemDescriptor::bytes_ok(s),
        SatelliteDeliverySystemDescriptor::canonical(body_of(s)),
        d.decodes(body_of(s)),
        d2.decodes(body_of(d.wire())),
    ensures
        d2 == d,
{
    lemma_satellite_delivery_system_reparse(s, d);
}

impl Polarization {
    /// The EN 300 468 satellite delivery system polarization codes: each code and the variant it stands for, in literal values.
    pub proof fn lemma_codes()
        ensures
            Polarization::spec_from_u8(0) == Polarization::LinearHorizontal,
            Polarization::spec_from_u8(1) == Polarization::LinearVertical,
            Polarization::spec_from_u8(2) == Polarization::CircularLeft,
            Polarization::spec_from_u8(3) == Polarization::CircularRight,
            Polarization::LinearHorizontal.spec_to_u8() == 0,
            Polarization::LinearVertical.spec_to_u8() == 1,
            Polarization::CircularLeft.spec_to_u8() == 2,
            Polarization::CircularRight.spec_to_u8() == 3,
    {
        lemma_low2(0);
        lemma_low2(1);
        lemma_low2(2);
        lemma_low2(3);
    }
}

impl RollOff {
    /// The EN 300 468 satellite delivery system roll-off codes: each code and the variant it stands for, in literal values.
    pub proof fn lemma_codes()
        ensures
            RollOff::spec_from_u8(0) == RollOff::Alpha035,
            RollOff::spec_from_u8(1) == RollOff::Alpha025,
            RollOff::spec_from_u8(2) == RollOff::Alpha020,
            RollOff::Alpha035.spec_to_u8() == 0,
            RollOff::Alpha025.spec_to_u8() == 1,
            RollOff::Alpha020.spec_to_u8() == 2,
            forall|v: u8| v != 0 && v != 1 && v != 2 ==> #[trigger] RollOff::spec_from_u8(v) == RollOff::Reserved(v),
            forall|v: u8| #[trigger] RollOff::Reserved(v).spec_to_u8() == v,
    {
    }
}

impl FecInner {
    /// The EN 300 468 FEC_inner codes: each code and the variant it stands for, in literal values.
    pub proof fn lemma_codes()
        ensures
            FecInner::spec_from_u8(0) == FecInner::NotDefined,
            FecInner::spec_from_u8(1) == FecInner::Rate1_2,
            FecInner::spec_from_u8(2) == FecInner::Rate2_3,
            FecInner::spec_from_u8(3) == FecInner::Rate3_4,
            FecInner::spec_from_u8(4) == FecInner::Rate5_6,
            FecInner::spec_from_u8(5) == FecInner::Rate7_8,
            FecInner::spec_from_u8(6) == FecInner::Rate8_9,
            FecInner::spec_from_u8(7) == FecInner::Rate3_5,
            FecInner::spec_from_u8(8) == FecInner::Rate4_5,
            FecInner::spec_from_u8(9) == FecInner::Rate9_10,
            FecInner::spec_from_u8(15) == FecInner::NoConvCoding,
            FecInner::NotDefined.spec_to_u8() == 0,
            FecInner::Rate1_2.spec_to_u8() == 1,
            FecInner::Rate2_3.spec_to_u8() == 2,
            FecInner::Rate3_4.spec_to_u8() == 3,
            FecInner::Rate5_6.spec_to_u8() == 4,
            FecInner::Rate7_8.spec_to_u8() == 5,
            FecInner::Rate8_9.spec_to_u8() == 6,
            FecInner::Rate3_5.spec_to_u8() == 7,
            FecInner::Rate4_5.spec_to_u8() == 8,
            FecInner::Rate9_10.spec_to_u8() == 9,
            FecInner::NoConvCoding.spec_to_u8() == 15,
            forall|v: u8| v != 0 && v != 1 && v != 2 && v != 3 && v != 4 && v != 5 && v != 6 && v != 7 && v != 8 && v != 9 && v != 15 ==> #[trigger] FecInner::spec_from_u8(v) == FecInner::Reserved(v),
            forall|v: u8| #[trigger] FecInner::Reserved(v).spec_to_u8() == v,
    {
    }
}

/// The flags byte and FEC nibble of a parsed satellite delivery system descriptor,
/// in the literal codes of EN 300 468: west_east_flag (bit 7), polarization
/// (bits 6-5: 0 linear horizontal, 1 linear vertical, 2 circular left, 3 circular
/// right), roll_off (bits 4-3: 0 α=0.35, 1 α=0.25, 2 α=0.20), modulation_system
/// (bit 2: 0 DVB-S, 1 DVB-S2), modulation_type (bits 1-0: 0 auto, 1 QPSK, 2 8PSK,
/// 3 16-QAM) and FEC_inner (low nibble of the last four bytes).
pub proof fn lemma_satellite_flags_codes(b: Seq<u8>, d: SatelliteDeliverySystemDescriptor)
    requires
        d.decodes(b),
    ensures
        d.east == (b[6] & 0x80 != 0),
        (b[6] >> 5u8) & 0x03 == 0 ==> d.polarization == Polarization::LinearHorizontal,
        (b[6] >> 5u8) & 0x03 == 1 ==> d.polarization == Polarization::LinearVertical,
        (b[6] >> 5u8) & 0x03 == 2 ==> d.polarization == Polarization::CircularLeft,
        (b[6] >> 5u8) & 0x03 == 3 ==> d.polarization == Polarization::CircularRight,
        (b[6] >> 3u8) & 0x03 == 0 ==> d.roll_off == RollOff::Alpha035,
        (b[6] >> 3u8) & 0x03 == 1 ==> d.roll_off == RollOff::Alpha025,
        (b[6] >> 3u8) & 0x03 == 2 ==> d.roll_off == RollOff::Alpha020,
        (b[6] >> 3u8) & 0x03 != 0 && (b[6] >> 3u8) & 0x03 != 1 && (b[6] >> 3u8) & 0x03 != 2 ==> d.roll_off == RollOff::Reserved((b[6] >> 3u8) & 0x03),
        (b[6] >> 2u8) & 0x01 == 0 ==> d.modulation_system == ModulationSystem::DvbS,
        (b[6] >> 2u8) & 0x01 == 1 ==> d.modulation_system == ModulationSystem::DvbS2,
        b[6] & 0x03 == 0 ==> d.modulation_type == ModulationType::Auto,
        b[6] & 0x03 == 1 ==> d.modulation_type == ModulationType::Qpsk,
        b[6] & 0x03 == 2 ==> d.modulation_type == ModulationType::Psk8,
        b[6] & 0x03 == 3 ==> d.modulation_type == ModulationType::Qam16,
        ((be32(b, 7) as u32) & 0x0F) as u8 == 0 ==> d.fec_inner == FecInner::NotDefined,
        ((be32(b, 7) as u32) & 0x0F) as u8 == 1 ==> d.fec_inner == FecInner::Rate1_2,
        ((be32(b, 7) as u32) & 0x0F) as u8 == 2 ==> d.fec_inner == FecInner::Rate2_3,
        ((be32(b, 7) as u32) & 0x0F) as u8 == 3 ==> d.fec_inner == FecInner::Rate3_4,
        ((be32(b, 7) as u32) & 0x0F) as u8 == 4 ==> d.fec_inner == FecInner::Rate5_6,
        ((be32(b, 7) as u32) & 0x0F) as u8 == 5 ==> d.fec_inner == FecInner::Rate7_8,
        ((be32(b, 7) as u32) & 0x0F) as u8 == 6 ==> d.fec_inner == FecInner::Rate8_9,
        ((be32(b, 7) as u32) & 0x0F) as u8 == 7 ==> d.fec_inner == FecInner::Rate3_5,
        ((be32(b, 7) as u32) & 0x0F) as u8 == 8 ==> d.fec_inner == FecInner::Rate4_5,
        ((be32(b, 7) as u32) & 0x0F) as u8 == 9 ==> d.fec_inner == FecInner::Rate9_10,
        ((be32(b, 7) as u32) & 0x0F) as u8 == 15 ==> d.fec_inner == FecInner::NoConvCoding,
        ((be32(b, 7) as u32) & 0x0F) as u8 != 0 && ((be32(b, 7) as u32) & 0x0F) as u8 != 1 && ((be32(b, 7) as u32) & 0x0F) as u8 != 2 && ((be32(b, 7) as u32) & 0x0F) as u8 != 3 && ((be32(b, 7) as u32) & 0x0F) as u8 != 4 && ((be32(b, 7) as u32) & 0x0F) as u8 != 5 && ((be32(b, 7) as u32) & 0x0F) as u8 != 6 && ((be32(b, 7) as u32) & 0x0F) as u8 != 7 && ((be32(b, 7) as u32) & 0x0F) as u8 != 8 && ((be32(b, 7) as u32) & 0x0F) as u8 != 9 && ((be32(b, 7) as u32) & 0x0F) as u8 != 15 ==> d.fec_inner == FecInner::Reserved(((be32(b, 7) as u32) & 0x0F) as u8),
{
    lemma_low2((b[6] >> 5u8) & 0x03);
}

/// The units of the satellite delivery system fields: the eight BCD digits of the
/// frequency count 10 kHz, the seven BCD digits of the symbol rate count 100
/// symbols per second (each nibble a decimal digit, see
/// [`crate::bcd::lemma_bcd_digit_weight`]); a non-decimal nibble gives no value.
pub proof fn lemma_satellite_units(d: SatelliteDeliverySystemDescriptor)
    ensures
        bcd_digits_ok(d.frequency_bcd as nat, 8) ==> d.spec_frequency_hz() == Some(
            (bcd_value(d.frequency_bcd as nat, 8) * 10_000) as u64,
        ),
        !bcd_digits_ok(d.frequency_bcd as nat, 8) ==> d.spec_frequency_hz() is None,
        bcd_digits_ok(d.symbol_rate_bcd as nat, 7) ==> d.spec_symbol_rate_sps() == Some(
            (bcd_value(d.symbol_rate_bcd as nat, 7) * 100) as u64,
        ),
        !bcd_digits_ok(d.symbol_rate_bcd as nat, 7) ==> d.spec_symbol_rate_sps() is None,
{
}

} // verus!
