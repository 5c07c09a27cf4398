//! SH Delivery System Descriptor — ETSI EN 300 468 §6.4.6.2 (tag_extension 0x05).

use super::ExtensionBodyDef;
use crate::error::{is_too_short, sat, Error};
use crate::runs::{
    lemma_run_of_encoded, lemma_run_push, lemma_run_decodes_same, lemma_run_reencodes, lemma_run_relength, lemma_run_step, len_stable, run_all,
    run_decodes, run_fail_at, run_ok,
};
use crate::wire::{bit, concat_map, lemma_concat_map_prefix_len, lemma_concat_map_push, push_u8};
use crate::descriptors::emitted;
use crate::wire::copy_to_front;
use vstd::prelude::*;

verus! {

impl ExtensionBodyDef for ShDeliverySystem {
    const TAG_EXTENSION: u8 = 0x05;
    const NAME: &'static str = "SH_DELIVERY_SYSTEM";
}

/// SH diversity mode — ETSI EN 300 468 Table 120.
#[derive(Debug, Clone, Copy, PartialEq, Eq)]
pub enum ShDiversityMode {
    /// 0b0000 — no diversity.
    NoDiversity,
    /// 0b1000 — paTS only.
    PaTsOnly,
    /// 0b1101 — paTS + FEC diversity, FEC at link.
    FecAtLink,
    /// 0b1110 — paTS + FEC diversity, FEC at PHY.
    FecAtPhy,
    /// 0b1111 — paTS + FEC diversity, FEC at PHY and link.
    FecAtPhyAndLink,
    /// Reserved / future use.
    Reserved(u8),
}

impl ShDiversityMode {
    /// The variant for a raw value.
    pub open spec fn spec_from_u8(v: u8) -> Self {
        if v == 0 {
            ShDiversityMode::NoDiversity
        } else if v == 8 {
            ShDiversityMode::PaTsOnly
        } else if v == 13 {
            ShDiversityMode::FecAtLink
        } else if v == 14 {
            ShDiversityMode::FecAtPhy
        } else if v == 15 {
            ShDiversityMode::FecAtPhyAndLink
        } else {
            ShDiversityMode::Reserved(v)
        }
    }

    /// The raw value of a variant.
    pub open spec fn spec_to_u8(self) -> u8 {
        match self {
            ShDiversityMode::NoDiversity => 0,
            ShDiversityMode::PaTsOnly => 8,
            ShDiversityMode::FecAtLink => 13,
            ShDiversityMode::FecAtPhy => 14,
            ShDiversityMode::FecAtPhyAndLink => 15,
            ShDiversityMode::Reserved(v) => v,
        }
    }

    /// The variant is the one `from_u8` gives for its raw value (a `Reserved`
    /// value is not one of the named values).
    pub open spec fn wf(self) -> bool {
        match self {
            ShDiversityMode::Reserved(v) => v != 0 && v != 8 && v != 13 && v != 14 && v != 15,
            _ => true,
        }
    }

    /// The spec name of a variant.
    pub open spec fn spec_name(self) -> &'static str {
        match self {
            ShDiversityMode::NoDiversity => "no diversity",
            ShDiversityMode::PaTsOnly => "paTS only",
            ShDiversityMode::FecAtLink => "paTS + FEC diversity, FEC at link",
            ShDiversityMode::FecAtPhy => "paTS + FEC diversity, FEC at PHY",
            ShDiversityMode::FecAtPhyAndLink => "paTS + FEC diversity, FEC at PHY and link",
            ShDiversityMode::Reserved(_) => "reserved",
        }
    }

    /// `from_u8` and `to_u8` are inverse on raw values.
    pub proof fn lemma_from_to(v: u8)
        ensures
            Self::spec_from_u8(v).spec_to_u8() == v,
            Self::spec_from_u8(v).wf(),
    {
    }

    /// Constructs from a raw `u8`; every value maps to a variant (total, lossless).
    pub fn from_u8(v: u8) -> (r: Self)
        ensures
            r == Self::spec_from_u8(v),
            r.spec_to_u8() == v,
            r.wf(),
    {
        match v {
            0 => ShDiversityMode::NoDiversity,
            8 => ShDiversityMode::PaTsOnly,
            13 => ShDiversityMode::FecAtLink,
            14 => ShDiversityMode::FecAtPhy,
            15 => ShDiversityMode::FecAtPhyAndLink,
            other => ShDiversityMode::Reserved(other),
        }
    }

    /// Inverse of `from_u8`; `Reserved` emits its stored value.
    pub fn to_u8(self) -> (r: u8)
        ensures
            r == self.spec_to_u8(),
            self.wf() ==> Self::spec_from_u8(r) == self,
    {
        match self {
            ShDiversityMode::NoDiversity => 0,
            ShDiversityMode::PaTsOnly => 8,
            ShDiversityMode::FecAtLink => 13,
            ShDiversityMode::FecAtPhy => 14,
            ShDiversityMode::FecAtPhyAndLink => 15,
            ShDiversityMode::Reserved(v) => v,
        }
    }

    /// Human-readable spec name.
    pub fn name(self) -> (r: &'static str)
        ensures
            r == self.spec_name(),
    {
        match self {
            ShDiversityMode::NoDiversity => "no diversity",
            ShDiversityMode::PaTsOnly => "paTS only",
            ShDiversityMode::FecAtLink => "paTS + FEC diversity, FEC at link",
            ShDiversityMode::FecAtPhy => "paTS + FEC diversity, FEC at PHY",
            ShDiversityMode::FecAtPhyAndLink => "paTS + FEC diversity, FEC at PHY and link",
            ShDiversityMode::Reserved(_) => "reserved",
        }
    }
}

/// SH polarization — ETSI EN 300 468 Table 121.
#[derive(Debug, Clone, Copy, PartialEq, Eq)]
pub enum ShPolarization {
    /// Linear horizontal.
    LinearHorizontal,
    /// Linear vertical.
    LinearVertical,
    /// Circular left.
    CircularLeft,
    /// Circular right.
    CircularRight,
    /// Reserved / future use.
    Reserved(u8),
}

impl ShPolarization {
    /// The variant for a raw value.
    pub open spec fn spec_from_u8(v: u8) -> Self {
        if v == 0 {
            ShPolarization::LinearHorizontal
        } else if v == 1 {
            ShPolarization::LinearVertical
        } else if v == 2 {
            ShPolarization::CircularLeft
        } else if v == 3 {
            ShPolarization::CircularRight
        } else {
            ShPolarization::Reserved(v)
        }
    }

    /// The raw value of a variant.
    pub open spec fn spec_to_u8(self) -> u8 {
        match self {
            ShPolarization::LinearHorizontal => 0,
            ShPolarization::LinearVertical => 1,
            ShPolarization::CircularLeft => 2,
            ShPolarization::CircularRight => 3,
            ShPolarization::Reserved(v) => v,
        }
    }

    /// The variant is the one `from_u8` gives for its raw value (a `Reserved`
    /// value is not one of the named values).
    pub open spec fn wf(self) -> bool {
        match self {
            ShPolarization::Reserved(v) => v != 0 && v != 1 && v != 2 && v != 3,
            _ => true,
        }
    }

    /// The spec name of a variant.
    pub open spec fn spec_name(self) -> &'static str {
        match self {
            ShPolarization::LinearHorizontal => "linear horizontal",
            ShPolarization::LinearVertical => "linear vertical",
            ShPolarization::CircularLeft => "circular left",
            ShPolarization::CircularRight => "circular right",
            ShPolarization::Reserved(_) => "reserved",
        }
    }

    /// `from_u8` and `to_u8` are inverse on raw values.
    pub proof fn lemma_from_to(v: u8)
        ensures
            Self::spec_from_u8(v).spec_to_u8() == v,
            Self::spec_from_u8(v).wf(),
    {
    }

    /// Constructs from a raw `u8`; every value maps to a variant (total, lossless).
    pub fn from_u8(v: u8) -> (r: Self)
        ensures
            r == Self::spec_from_u8(v),
            r.spec_to_u8() == v,
            r.wf(),
    {
        match v {
            0 => ShPolarization::LinearHorizontal,
            1 => ShPolarization::LinearVertical,
            2 => ShPolarization::CircularLeft,
            3 => ShPolarization::CircularRight,
            other => ShPolarization::Reserved(other),
        }
    }

    /// Inverse of `from_u8`; `Reserved` emits its stored value.
    pub fn to_u8(self) -> (r: u8)
        ensures
            r == self.spec_to_u8(),
            self.wf() ==> Self::spec_from_u8(r) == self,
    {
        match self {
            ShPolarization::LinearHorizontal => 0,
            ShPolarization::LinearVertical => 1,
            ShPolarization::CircularLeft => 2,
            ShPolarization::CircularRight => 3,
            ShPolarization::Reserved(v) => v,
        }
    }

    /// Human-readable spec name.
    pub fn name(self) -> (r: &'static str)
        ensures
            r == self.spec_name(),
    {
        match self {
            ShPolarization::LinearHorizontal => "linear horizontal",
            ShPolarization::LinearVertical => "linear vertical",
            ShPolarization::CircularLeft => "circular left",
            ShPolarization::CircularRight => "circular right",
            ShPolarization::Reserved(_) => "reserved",
        }
    }
}

/// SH roll-off factor — ETSI EN 300 468 Table 122.
#[derive(Debug, Clone, Copy, PartialEq, Eq)]
pub enum ShRollOff {
    /// α = 0.35.
    Alpha035,
    /// α = 0.25.
    Alpha025,
    /// α = 0.15.
    Alpha015,
    /// Reserved / future use.
    Reserved(u8),
}

impl ShRollOff {
    /// The variant for a raw value.
    pub open spec fn spec_from_u8(v: u8) -> Self {
        if v == 0 {
            ShRollOff::Alpha035
        } else if v == 1 {
            ShRollOff::Alpha025
        } else if v == 2 {
            ShRollOff::Alpha015
        } else {
            ShRollOff::Reserved(v)
        }
    }

    /// The raw value of a variant.
    pub open spec fn spec_to_u8(self) -> u8 {
        match self {
            ShRollOff::Alpha035 => 0,
            ShRollOff::Alpha025 => 1,
            ShRollOff::Alpha015 => 2,
            ShRollOff::Reserved(v) => v,
        }
    }

    /// The variant is the one `from_u8` gives for its raw value (a `Reserved`
    /// value is not one of the named values).
    pub open spec fn wf(self) -> bool {
        match self {
            ShRollOff::Reserved(v) => v != 0 && v != 1 && v != 2,
            _ => true,
        }
    }

    /// The spec name of a variant.
    pub open spec fn spec_name(self) -> &'static str {
        match self {
            ShRollOff::Alpha035 => "α = 0.35",
            ShRollOff::Alpha025 => "α = 0.25",
            ShRollOff::Alpha015 => "α = 0.15",
            ShRollOff::Reserved(_) => "reserved",
        }
    }

    /// `from_u8` and `to_u8` are inverse on raw values.
    pub proof fn lemma_from_to(v: u8)
        ensures
            Self::spec_from_u8(v).spec_to_u8() == v,
            Self::spec_from_u8(v).wf(),
    {
    }

    /// Constructs from a raw `u8`; every value maps to a variant (total, lossless).
    pub fn from_u8(v: u8) -> (r: Self)
        ensures
            r == Self::spec_from_u8(v),
            r.spec_to_u8() == v,
            r.wf(),
    {
        match v {
            0 => ShRollOff::Alpha035,
            1 => ShRollOff::Alpha025,
            2 => ShRollOff::Alpha015,
            other => ShRollOff::Reserved(other),
        }
    }

    /// Inverse of `from_u8`; `Reserved` emits its stored value.
    pub fn to_u8(self) -> (r: u8)
        ensures
            r == self.spec_to_u8(),
            self.wf() ==> Self::spec_from_u8(r) == self,
    {
        match self {
            ShRollOff::Alpha035 => 0,
            ShRollOff::Alpha025 => 1,
            ShRollOff::Alpha015 => 2,
            ShRollOff::Reserved(v) => v,
        }
    }

    /// Human-readable spec name.
    pub fn name(self) -> (r: &'static str)
        ensures
            r == self.spec_name(),
    {
        match self {
            ShRollOff::Alpha035 => "α = 0.35",
            ShRollOff::Alpha025 => "α = 0.25",
            ShRollOff::Alpha015 => "α = 0.15",
            ShRollOff::Reserved(_) => "reserved",
        }
    }
}

/// SH TDM modulation mode — ETSI EN 300 468 Table 123.
#[derive(Debug, Clone, Copy, PartialEq, Eq)]
pub enum ShModulationModeType {
    /// QPSK.
    Qpsk,
    /// 8PSK.
    Psk8,
    /// 16APSK.
    Apsk16,
    /// Reserved / future use.
    Reserved(u8),
}

impl ShModulationModeType {
    /// The variant for a raw value.
    pub open spec fn spec_from_u8(v: u8) -> Self {
        if v == 0 {
            ShModulationModeType::Qpsk
        } else if v == 1 {
            ShModulationModeType::Psk8
        } else if v == 2 {
            ShModulationModeType::Apsk16
        } else {
            ShModulationModeType::Reserved(v)
        }
    }

    /// The raw value of a variant.
    pub open spec fn spec_to_u8(self) -> u8 {
        match self {
            ShModulationModeType::Qpsk => 0,
            ShModulationModeType::Psk8 => 1,
            ShModulationModeType::Apsk16 => 2,
            ShModulationModeType::Reserved(v) => v,
        }
    }

    /// The variant is the one `from_u8` gives for its raw value (a `Reserved`
    /// value is not one of the named values).
    pub open spec fn wf(self) -> bool {
        match self {
            ShModulationModeType::Reserved(v) => v != 0 && v != 1 && v != 2,
            _ => true,
        }
    }

    /// The spec name of a variant.
    pub open spec fn spec_name(self) -> &'static str {
        match self {
            ShModulationModeType::Qpsk => "QPSK",
            ShModulationModeType::Psk8 => "8PSK",
            ShModulationModeType::Apsk16 => "16APSK",
            ShModulationModeType::Reserved(_) => "reserved",
        }
    }

    /// `from_u8` and `to_u8` are inverse on raw values.
    pub proof fn lemma_from_to(v: u8)
        ensures
            Self::spec_from_u8(v).spec_to_u8() == v,
            Self::spec_from_u8(v).wf(),
    {
    }

    /// Constructs from a raw `u8`; every value maps to a variant (total, lossless).
    pub fn from_u8(v: u8) -> (r: Self)
        ensures
            r == Self::spec_from_u8(v),
            r.spec_to_u8() == v,
            r.wf(),
    {
        match v {
            0 => ShModulationModeType::Qpsk,
            1 => ShModulationModeType::Psk8,
            2 => ShModulationModeType::Apsk16,
            other => ShModulationModeType::Reserved(other),
        }
    }

    /// Inverse of `from_u8`; `Reserved` emits its stored value.
    pub fn to_u8(self) -> (r: u8)
        ensures
            r == self.spec_to_u8(),
            self.wf() ==> Self::spec_from_u8(r) == self,
    {
        match self {
            ShModulationModeType::Qpsk => 0,
            ShModulationModeType::Psk8 => 1,
            ShModulationModeType::Apsk16 => 2,
            ShModulationModeType::Reserved(v) => v,
        }
    }

    /// Human-readable spec name.
    pub fn name(self) -> (r: &'static str)
        ensures
            r == self.spec_name(),
    {
        match self {
            ShModulationModeType::Qpsk => "QPSK",
            ShModulationModeType::Psk8 => "8PSK",
            ShModulationModeType::Apsk16 => "16APSK",
            ShModulationModeType::Reserved(_) => "reserved",
        }
    }
}

/// SH code rate — ETSI EN 300 468 Table 124.
#[derive(Debug, Clone, Copy, PartialEq, Eq)]
pub enum ShCodeRate {
    /// Code rate 1/5 standard.
    Rate1_5Standard,
    /// Code rate 2/9 standard.
    Rate2_9Standard,
    /// Code rate 1/4 standard.
    Rate1_4Standard,
    /// Code rate 2/7 standard.
    Rate2_7Standard,
    /// Code rate 1/3 standard.
    Rate1_3Standard,
    /// Code rate 1/3 complementary.
    Rate1_3Complementary,
    /// Code rate 2/5 standard.
    Rate2_5Standard,
    /// Code rate 2/5 complementary.
    Rate2_5Complementary,
    /// Code rate 1/2 standard.
    Rate1_2Standard,
    /// Code rate 1/2 complementary.
    Rate1_2Complementary,
    /// Code rate 2/3 standard.
    Rate2_3Standard,
    /// Code rate 2/3 complementary.
    Rate2_3Complementary,
    /// Reserved / future use.
    Reserved(u8),
}

impl ShCodeRate {
    /// The variant for a raw value.
    pub open spec fn spec_from_u8(v: u8) -> Self {
        if v == 0 {
            ShCodeRate::Rate1_5Standard
        } else if v == 1 {
            ShCodeRate::Rate2_9Standard
        } else if v == 2 {
            ShCodeRate::Rate1_4Standard
        } else if v == 3 {
            ShCodeRate::Rate2_7Standard
        } else if v == 4 {
            ShCodeRate::Rate1_3Standard
        } else if v == 5 {
            ShCodeRate::Rate1_3Complementary
        } else if v == 6 {
            ShCodeRate::Rate2_5Standard
        } else if v == 7 {
            ShCodeRate::Rate2_5Complementary
        } else if v == 8 {
            ShCodeRate::Rate1_2Standard
        } else if v == 9 {
            ShCodeRate::Rate1_2Complementary
        } else if v == 10 {
            ShCodeRate::Rate2_3Standard
        } else if v == 11 {
            ShCodeRate::Rate2_3Complementary
        } else {
            ShCodeRate::Reserved(v)
        }
    }

    /// The raw value of a variant.
    pub open spec fn spec_to_u8(self) -> u8 {
        match self {
            ShCodeRate::Rate1_5Standard => 0,
            ShCodeRate::Rate2_9Standard => 1,
            ShCodeRate::Rate1_4Standard => 2,
            ShCodeRate::Rate2_7Standard => 3,
            ShCodeRate::Rate1_3Standard => 4,
            ShCodeRate::Rate1_3Complementary => 5,
            ShCodeRate::Rate2_5Standard => 6,
            ShCodeRate::Rate2_5Complementary => 7,
            ShCodeRate::Rate1_2Standard => 8,
            ShCodeRate::Rate1_2Complementary => 9,
            ShCodeRate::Rate2_3Standard => 10,
            ShCodeRate::Rate2_3Complementary => 11,
            ShCodeRate::Reserved(v) => v,
        }
    }

    /// The variant is the one `from_u8` gives for its raw value (a `Reserved`
    /// value is not one of the named values).
    pub open spec fn wf(self) -> bool {
        match self {
            ShCodeRate::Reserved(v) => v != 0 && v != 1 && v != 2 && v != 3 && v != 4 && v != 5 && v != 6 && v != 7 && v != 8 && v != 9 && v != 10 && v != 11,
            _ => true,
        }
    }

    /// The spec name of a variant.
    pub open spec fn spec_name(self) -> &'static str {
        match self {
            ShCodeRate::Rate1_5Standard => "1/5 standard",
            ShCodeRate::Rate2_9Standard => "2/9 standard",
            ShCodeRate::Rate1_4Standard => "1/4 standard",
            ShCodeRate::Rate2_7Standard => "2/7 standard",
            ShCodeRate::Rate1_3Standard => "1/3 standard",
            ShCodeRate::Rate1_3Complementary => "1/3 complementary",
            ShCodeRate::Rate2_5Standard => "2/5 standard",
            ShCodeRate::Rate2_5Complementary => "2/5 complementary",
            ShCodeRate::Rate1_2Standard => "1/2 standard",
            ShCodeRate::Rate1_2Complementary => "1/2 complementary",
            ShCodeRate::Rate2_3Standard => "2/3 standard",
            ShCodeRate::Rate2_3Complementary => "2/3 complementary",
            ShCodeRate::Reserved(_) => "reserved",
        }
    }

    /// `from_u8` and `to_u8` are inverse on raw values.
    pub proof fn lemma_from_to(v: u8)
        ensures
            Self::spec_from_u8(v).spec_to_u8() == v,
            Self::spec_from_u8(v).wf(),
    {
    }

    /// Constructs from a raw `u8`; every value maps to a variant (total, lossless).
    pub fn from_u8(v: u8) -> (r: Self)
        ensures
            r == Self::spec_from_u8(v),
            r.spec_to_u8() == v,
            r.wf(),
    {
        match v {
            0 => ShCodeRate::Rate1_5Standard,
            1 => ShCodeRate::Rate2_9Standard,
            2 => ShCodeRate::Rate1_4Standard,
            3 => ShCodeRate::Rate2_7Standard,
            4 => ShCodeRate::Rate1_3Standard,
            5 => ShCodeRate::Rate1_3Complementary,
            6 => ShCodeRate::Rate2_5Standard,
            7 => ShCodeRate::Rate2_5Complementary,
            8 => ShCodeRate::Rate1_2Standard,
            9 => ShCodeRate::Rate1_2Complementary,
            10 => ShCodeRate::Rate2_3Standard,
            11 => ShCodeRate::Rate2_3Complementary,
            other => ShCodeRate::Reserved(other),
        }
    }

    /// Inverse of `from_u8`; `Reserved` emits its stored value.
    pub fn to_u8(self) -> (r: u8)
        ensures
            r == self.spec_to_u8(),
            self.wf() ==> Self::spec_from_u8(r) == self,
    {
        match self {
            ShCodeRate::Rate1_5Standard => 0,
            ShCodeRate::Rate2_9Standard => 1,
            ShCodeRate::Rate1_4Standard => 2,
            ShCodeRate::Rate2_7Standard => 3,
            ShCodeRate::Rate1_3Standard => 4,
            ShCodeRate::Rate1_3Complementary => 5,
            ShCodeRate::Rate2_5Standard => 6,
            ShCodeRate::Rate2_5Complementary => 7,
            ShCodeRate::Rate1_2Standard => 8,
            ShCodeRate::Rate1_2Complementary => 9,
            ShCodeRate::Rate2_3Standard => 10,
            ShCodeRate::Rate2_3Complementary => 11,
            ShCodeRate::Reserved(v) => v,
        }
    }

    /// Human-readable spec name.
    pub fn name(self) -> (r: &'static str)
        ensures
            r == self.spec_name(),
    {
        match self {
            ShCodeRate::Rate1_5Standard => "1/5 standard",
            ShCodeRate::Rate2_9Standard => "2/9 standard",
            ShCodeRate::Rate1_4Standard => "1/4 standard",
            ShCodeRate::Rate2_7Standard => "2/7 standard",
            ShCodeRate::Rate1_3Standard => "1/3 standard",
            ShCodeRate::Rate1_3Complementary => "1/3 complementary",
            ShCodeRate::Rate2_5Standard => "2/5 standard",
            ShCodeRate::Rate2_5Complementary => "2/5 complementary",
            ShCodeRate::Rate1_2Standard => "1/2 standard",
            ShCodeRate::Rate1_2Complementary => "1/2 complementary",
            ShCodeRate::Rate2_3Standard => "2/3 standard",
            ShCodeRate::Rate2_3Complementary => "2/3 complementary",
            ShCodeRate::Reserved(_) => "reserved",
        }
    }
}

/// SH OFDM bandwidth — ETSI EN 300 468 Table 125.
#[derive(Debug, Clone, Copy, PartialEq, Eq)]
pub enum ShBandwidth {
    /// 8 MHz.
    Mhz8,
    /// 7 MHz.
    Mhz7,
    /// 6 MHz.
    Mhz6,
    /// 5 MHz.
    Mhz5,
    /// 1.7 MHz.
    Mhz1_7,
    /// Reserved / future use.
    Reserved(u8),
}

impl ShBandwidth {
    /// The variant for a raw value.
    pub open spec fn spec_from_u8(v: u8) -> Self {
        if v == 0 {
            ShBandwidth::Mhz8
        } else if v == 1 {
            ShBandwidth::Mhz7
        } else if v == 2 {
            ShBandwidth::Mhz6
        } else if v == 3 {
            ShBandwidth::Mhz5
        } else if v == 4 {
            ShBandwidth::Mhz1_7
        } else {
            ShBandwidth::Reserved(v)
        }
    }

    /// The raw value of a variant.
    pub open spec fn spec_to_u8(self) -> u8 {
        match self {
            ShBandwidth::Mhz8 => 0,
            ShBandwidth::Mhz7 => 1,
            ShBandwidth::Mhz6 => 2,
            ShBandwidth::Mhz5 => 3,
            ShBandwidth::Mhz1_7 => 4,
            ShBandwidth::Reserved(v) => v,
        }
    }

    /// The variant is the one `from_u8` gives for its raw value (a `Reserved`
    /// value is not one of the named values).
    pub open spec fn wf(self) -> bool {
        match self {
            ShBandwidth::Reserved(v) => v != 0 && v != 1 && v != 2 && v != 3 && v != 4,
            _ => true,
        }
    }

    /// The spec name of a variant.
    pub open spec fn spec_name(self) -> &'static str {
        match self {
            ShBandwidth::Mhz8 => "8 MHz",
            ShBandwidth::Mhz7 => "7 MHz",
            ShBandwidth::Mhz6 => "6 MHz",
            ShBandwidth::Mhz5 => "5 MHz",
            ShBandwidth::Mhz1_7 => "1.7 MHz",
            ShBandwidth::Reserved(_) => "reserved",
        }
    }

    /// `from_u8` and `to_u8` are inverse on raw values.
    pub proof fn lemma_from_to(v: u8)
        ensures
            Self::spec_from_u8(v).spec_to_u8() == v,
            Self::spec_from_u8(v).wf(),
    {
    }

    /// Constructs from a raw `u8`; every value maps to a variant (total, lossless).
    pub fn from_u8(v: u8) -> (r: Self)
        ensures
            r == Self::spec_from_u8(v),
            r.spec_to_u8() == v,
            r.wf(),
    {
        match v {
            0 => ShBandwidth::Mhz8,
            1 => ShBandwidth::Mhz7,
            2 => ShBandwidth::Mhz6,
            3 => ShBandwidth::Mhz5,
            4 => ShBandwidth::Mhz1_7,
            other => ShBandwidth::Reserved(other),
        }
    }

    /// Inverse of `from_u8`; `Reserved` emits its stored value.
    pub fn to_u8(self) -> (r: u8)
        ensures
            r == self.spec_to_u8(),
            self.wf() ==> Self::spec_from_u8(r) == self,
    {
        match self {
            ShBandwidth::Mhz8 => 0,
            ShBandwidth::Mhz7 => 1,
            ShBandwidth::Mhz6 => 2,
            ShBandwidth::Mhz5 => 3,
            ShBandwidth::Mhz1_7 => 4,
            ShBandwidth::Reserved(v) => v,
        }
    }

    /// Human-readable spec name.
    pub fn name(self) -> (r: &'static str)
        ensures
            r == self.spec_name(),
    {
        match self {
            ShBandwidth::Mhz8 => "8 MHz",
            ShBandwidth::Mhz7 => "7 MHz",
            ShBandwidth::Mhz6 => "6 MHz",
            ShBandwidth::Mhz5 => "5 MHz",
            ShBandwidth::Mhz1_7 => "1.7 MHz",
            ShBandwidth::Reserved(_) => "reserved",
        }
    }
}

/// SH constellation and hierarchy — ETSI EN 300 468 Table 126.
#[derive(Debug, Clone, Copy, PartialEq, Eq)]
pub enum ShConstellationAndHierarchy {
    /// QPSK.
    Qpsk,
    /// 16QAM, non-hierarchical.
    Qam16NonHierarchical,
    /// 16QAM, α = 1.
    Qam16Alpha1,
    /// 16QAM, α = 2.
    Qam16Alpha2,
    /// 16QAM, α = 3.
    Qam16Alpha3,
    /// Reserved / future use.
    Reserved(u8),
}

impl ShConstellationAndHierarchy {
    /// The variant for a raw value.
    pub open spec fn spec_from_u8(v: u8) -> Self {
        if v == 0 {
            ShConstellationAndHierarchy::Qpsk
        } else if v == 1 {
            ShConstellationAndHierarchy::Qam16NonHierarchical
        } else if v == 2 {
            ShConstellationAndHierarchy::Qam16Alpha1
        } else if v == 3 {
            ShConstellationAndHierarchy::Qam16Alpha2
        } else if v == 4 {
            ShConstellationAndHierarchy::Qam16Alpha3
        } else {
            ShConstellationAndHierarchy::Reserved(v)
        }
    }

    /// The raw value of a variant.
    pub open spec fn spec_to_u8(self) -> u8 {
        match self {
            ShConstellationAndHierarchy::Qpsk => 0,
            ShConstellationAndHierarchy::Qam16NonHierarchical => 1,
            ShConstellationAndHierarchy::Qam16Alpha1 => 2,
            ShConstellationAndHierarchy::Qam16Alpha2 => 3,
            ShConstellationAndHierarchy::Qam16Alpha3 => 4,
            ShConstellationAndHierarchy::Reserved(v) => v,
        }
    }

    /// The variant is the one `from_u8` gives for its raw value (a `Reserved`
    /// value is not one of the named values).
    pub open spec fn wf(self) -> bool {
        match self {
            ShConstellationAndHierarchy::Reserved(v) => v != 0 && v != 1 && v != 2 && v != 3 && v != 4,
            _ => true,
        }
    }

    /// The spec name of a variant.
    pub open spec fn spec_name(self) -> &'static str {
        match self {
            ShConstellationAndHierarchy::Qpsk => "QPSK",
            ShConstellationAndHierarchy::Qam16NonHierarchical => "16QAM, non-hierarchical",
            ShConstellationAndHierarchy::Qam16Alpha1 => "16QAM, α = 1",
            ShConstellationAndHierarchy::Qam16Alpha2 => "16QAM, α = 2",
            ShConstellationAndHierarchy::Qam16Alpha3 => "16QAM, α = 3",
            ShConstellationAndHierarchy::Reserved(_) => "reserved",
        }
    }

    /// `from_u8` and `to_u8` are inverse on raw values.
    pub proof fn lemma_from_to(v: u8)
        ensures
            Self::spec_from_u8(v).spec_to_u8() == v,
            Self::spec_from_u8(v).wf(),
    {
    }

    /// Constructs from a raw `u8`; every value maps to a variant (total, lossless).
    pub fn from_u8(v: u8) -> (r: Self)
        ensures
            r == Self::spec_from_u8(v),
            r.spec_to_u8() == v,
            r.wf(),
    {
        match v {
            0 => ShConstellationAndHierarchy::Qpsk,
            1 => ShConstellationAndHierarchy::Qam16NonHierarchical,
            2 => ShConstellationAndHierarchy::Qam16Alpha1,
            3 => ShConstellationAndHierarchy::Qam16Alpha2,
            4 => ShConstellationAndHierarchy::Qam16Alpha3,
            other => ShConstellationAndHierarchy::Reserved(other),
        }
    }

    /// Inverse of `from_u8`; `Reserved` emits its stored value.
    pub fn to_u8(self) -> (r: u8)
        ensures
            r == self.spec_to_u8(),
            self.wf() ==> Self::spec_from_u8(r) == self,
    {
        match self {
            ShConstellationAndHierarchy::Qpsk => 0,
            ShConstellationAndHierarchy::Qam16NonHierarchical => 1,
            ShConstellationAndHierarchy::Qam16Alpha1 => 2,
            ShConstellationAndHierarchy::Qam16Alpha2 => 3,
            ShConstellationAndHierarchy::Qam16Alpha3 => 4,
            ShConstellationAndHierarchy::Reserved(v) => v,
        }
    }

    /// Human-readable spec name.
    pub fn name(self) -> (r: &'static str)
        ensures
            r == self.spec_name(),
    {
        match self {
            ShConstellationAndHierarchy::Qpsk => "QPSK",
            ShConstellationAndHierarchy::Qam16NonHierarchical => "16QAM, non-hierarchical",
            ShConstellationAndHierarchy::Qam16Alpha1 => "16QAM, α = 1",
            ShConstellationAndHierarchy::Qam16Alpha2 => "16QAM, α = 2",
            ShConstellationAndHierarchy::Qam16Alpha3 => "16QAM, α = 3",
            ShConstellationAndHierarchy::Reserved(_) => "reserved",
        }
    }
}

/// SH guard interval — ETSI EN 300 468 Table 127.
#[derive(Debug, Clone, Copy, PartialEq, Eq)]
pub enum ShGuardInterval {
    /// 1/32.
    G1_32,
    /// 1/16.
    G1_16,
    /// 1/8.
    G1_8,
    /// 1/4.
    G1_4,
    /// Reserved / future use.
    Reserved(u8),
}

impl ShGuardInterval {
    /// The variant for a raw value.
    pub open spec fn spec_from_u8(v: u8) -> Self {
        if v == 0 {
            ShGuardInterval::G1_32
        } else if v == 1 {
            ShGuardInterval::G1_16
        } else if v == 2 {
            ShGuardInterval::G1_8
        } else if v == 3 {
            ShGuardInterval::G1_4
        } else {
            ShGuardInterval::Reserved(v)
        }
    }

    /// The raw value of a variant.
    pub open spec fn spec_to_u8(self) -> u8 {
        match self {
            ShGuardInterval::G1_32 => 0,
            ShGuardInterval::G1_16 => 1,
            ShGuardInterval::G1_8 => 2,
            ShGuardInterval::G1_4 => 3,
            ShGuardInterval::Reserved(v) => v,
        }
    }

    /// The variant is the one `from_u8` gives for its raw value (a `Reserved`
    /// value is not one of the named values).
    pub open spec fn wf(self) -> bool {
        match self {
            ShGuardInterval::Reserved(v) => v != 0 && v != 1 && v != 2 && v != 3,
            _ => true,
        }
    }

    /// The spec name of a variant.
    pub open spec fn spec_name(self) -> &'static str {
        match self {
            ShGuardInterval::G1_32 => "1/32",
            ShGuardInterval::G1_16 => "1/16",
            ShGuardInterval::G1_8 => "1/8",
            ShGuardInterval::G1_4 => "1/4",
            ShGuardInterval::Reserved(_) => "reserved",
        }
    }

    /// `from_u8` and `to_u8` are inverse on raw values.
    pub proof fn lemma_from_to(v: u8)
        ensures
            Self::spec_from_u8(v).spec_to_u8() == v,
            Self::spec_from_u8(v).wf(),
    {
    }

    /// Constructs from a raw `u8`; every value maps to a variant (total, lossless).
    pub fn from_u8(v: u8) -> (r: Self)
        ensures
            r == Self::spec_from_u8(v),
            r.spec_to_u8() == v,
            r.wf(),
    {
        match v {
            0 => ShGuardInterval::G1_32,
            1 => ShGuardInterval::G1_16,
            2 => ShGuardInterval::G1_8,
            3 => ShGuardInterval::G1_4,
            other => ShGuardInterval::Reserved(other),
        }
    }

    /// Inverse of `from_u8`; `Reserved` emits its stored value.
    pub fn to_u8(self) -> (r: u8)
        ensures
            r == self.spec_to_u8(),
            self.wf() ==> Self::spec_from_u8(r) == self,
    {
        match self {
            ShGuardInterval::G1_32 => 0,
            ShGuardInterval::G1_16 => 1,
            ShGuardInterval::G1_8 => 2,
            ShGuardInterval::G1_4 => 3,
            ShGuardInterval::Reserved(v) => v,
        }
    }

    /// Human-readable spec name.
    pub fn name(self) -> (r: &'static str)
        ensures
            r == self.spec_name(),
    {
        match self {
            ShGuardInterval::G1_32 => "1/32",
            ShGuardInterval::G1_16 => "1/16",
            ShGuardInterval::G1_8 => "1/8",
            ShGuardInterval::G1_4 => "1/4",
            ShGuardInterval::Reserved(_) => "reserved",
        }
    }
}

/// SH transmission mode — ETSI EN 300 468 Table 128.
#[derive(Debug, Clone, Copy, PartialEq, Eq)]
pub enum ShTransmissionMode {
    /// 1k mode.
    Mode1k,
    /// 2k mode.
    Mode2k,
    /// 4k mode.
    Mode4k,
    /// 8k mode.
    Mode8k,
    /// Reserved / future use.
    Reserved(u8),
}

impl ShTransmissionMode {
    /// The variant for a raw value.
    pub open spec fn spec_from_u8(v: u8) -> Self {
        if v == 0 {
            ShTransmissionMode::Mode1k
        } else if v == 1 {
            ShTransmissionMode::Mode2k
        } else if v == 2 {
            ShTransmissionMode::Mode4k
        } else if v == 3 {
            ShTransmissionMode::Mode8k
        } else {
            ShTransmissionMode::Reserved(v)
        }
    }

    /// The raw value of a variant.
    pub open spec fn spec_to_u8(self) -> u8 {
        match self {
            ShTransmissionMode::Mode1k => 0,
            ShTransmissionMode::Mode2k => 1,
            ShTransmissionMode::Mode4k => 2,
            ShTransmissionMode::Mode8k => 3,
            ShTransmissionMode::Reserved(v) => v,
        }
    }

    /// The variant is the one `from_u8` gives for its raw value (a `Reserved`
    /// value is not one of the named values).
    pub open spec fn wf(self) -> bool {
        match self {
            ShTransmissionMode::Reserved(v) => v != 0 && v != 1 && v != 2 && v != 3,
            _ => true,
        }
    }

    /// The spec name of a variant.
    pub open spec fn spec_name(self) -> &'static str {
        match self {
            ShTransmissionMode::Mode1k => "1k mode",
            ShTransmissionMode::Mode2k => "2k mode",
            ShTransmissionMode::Mode4k => "4k mode",
            ShTransmissionMode::Mode8k => "8k mode",
            ShTransmissionMode::Reserved(_) => "reserved",
        }
    }

    /// `from_u8` and `to_u8` are inverse on raw values.
    pub proof fn lemma_from_to(v: u8)
        ensures
            Self::spec_from_u8(v).spec_to_u8() == v,
            Self::spec_from_u8(v).wf(),
    {
    }

    /// Constructs from a raw `u8`; every value maps to a variant (total, lossless).
    pub fn from_u8(v: u8) -> (r: Self)
        ensures
            r == Self::spec_from_u8(v),
            r.spec_to_u8() == v,
            r.wf(),
    {
        match v {
            0 => ShTransmissionMode::Mode1k,
            1 => ShTransmissionMode::Mode2k,
            2 => ShTransmissionMode::Mode4k,
            3 => ShTransmissionMode::Mode8k,
            other => ShTransmissionMode::Reserved(other),
        }
    }

    /// Inverse of `from_u8`; `Reserved` emits its stored value.
    pub fn to_u8(self) -> (r: u8)
        ensures
            r == self.spec_to_u8(),
            self.wf() ==> Self::spec_from_u8(r) == self,
    {
        match self {
            ShTransmissionMode::Mode1k => 0,
            ShTransmissionMode::Mode2k => 1,
            ShTransmissionMode::Mode4k => 2,
            ShTransmissionMode::Mode8k => 3,
            ShTransmissionMode::Reserved(v) => v,
        }
    }

    /// Human-readable spec name.
    pub fn name(self) -> (r: &'static str)
        ensures
            r == self.spec_name(),
    {
        match self {
            ShTransmissionMode::Mode1k => "1k mode",
            ShTransmissionMode::Mode2k => "2k mode",
            ShTransmissionMode::Mode4k => "4k mode",
            ShTransmissionMode::Mode8k => "8k mode",
            ShTransmissionMode::Reserved(_) => "reserved",
        }
    }
}

/// One modulation entry: its mode and optional interleaver.
#[derive(Debug, Clone, Copy, PartialEq, Eq)]
pub struct ShModulation {
    /// TDM or OFDM modulation parameters.
    pub modulation: ShModulationMode,
    /// Interleaver parameters, present iff `interleaver_presence`.
    pub interleaver: Option<ShInterleaver>,
}

/// Modulation parameters of one SH entry.
#[derive(Debug, Clone, Copy, PartialEq, Eq)]
pub enum ShModulationMode {
    /// modulation_type = 0.
    Tdm {
        /// polarization(2).
        polarization: ShPolarization,
        /// roll_off(2).
        roll_off: ShRollOff,
        /// modulation_mode(2).
        modulation_mode: ShModulationModeType,
        /// code_rate(4).
        code_rate: ShCodeRate,
        /// symbol_rate(5).
        symbol_rate: u8,
    },
    /// modulation_type = 1.
    Ofdm {
        /// bandwidth(3).
        bandwidth: ShBandwidth,
        /// priority(1).
        priority: bool,
        /// constellation_and_hierarchy(3).
        constellation_and_hierarchy: ShConstellationAndHierarchy,
        /// code_rate(4).
        code_rate: ShCodeRate,
        /// guard_interval(2).
        guard_interval: ShGuardInterval,
        /// transmission_mode(2).
        transmission_mode: ShTransmissionMode,
        /// common_frequency(1).
        common_frequency: bool,
    },
}

/// Interleaver parameters of one SH entry.
#[derive(Debug, Clone, Copy, PartialEq, Eq)]
pub enum ShInterleaver {
    /// interleaver_type = 0: 4 bytes.
    Type0 {
        /// common_multiplier(6).
        common_multiplier: u8,
        /// nof_late_taps(6).
        nof_late_taps: u8,
        /// nof_slices(6).
        nof_slices: u8,
        /// slice_distance(8).
        slice_distance: u8,
        /// non_late_increments(6).
        non_late_increments: u8,
    },
    /// interleaver_type = 1: 1 byte.
    Type1 {
        /// common_multiplier(6).
        common_multiplier: u8,
    },
}

/// Size of the entry at the front of `t`, read from its flags byte.
pub open spec fn sh_entry_len(t: Seq<u8>) -> int {
    if t.len() == 0 {
        0
    } else if (t[0] >> 6u8) & 0x01 == 1 {
        if (t[0] >> 5u8) & 0x01 == 0 {
            7
        } else {
            4
        }
    } else {
        3
    }
}

/// [`sh_entry_len`] as a function.
pub open spec fn sh_len_fn() -> spec_fn(Seq<u8>) -> int {
    |t: Seq<u8>| sh_entry_len(t)
}

/// Decoding of one entry, as a relation.
pub open spec fn sh_dec_fn() -> spec_fn(ShModulation, Seq<u8>) -> bool {
    |e: ShModulation, t: Seq<u8>| t.len() >= 1 && sh_entry_len(t) == t.len() && e == ShModulation::spec_parse(t)
}

/// Encoding of one entry, as a function.
pub open spec fn sh_enc_fn() -> spec_fn(ShModulation) -> Seq<u8> {
    |e: ShModulation| e.wire()
}

/// Reserved bits of one entry, as written by serialization.
pub open spec fn sh_canon_fn() -> spec_fn(Seq<u8>) -> bool {
    |t: Seq<u8>| ShModulation::canonical(t)
}

/// Well-formedness of one entry, as a function.
pub open spec fn sh_good_fn() -> spec_fn(ShModulation) -> bool {
    |e: ShModulation| e.wf()
}

pub proof fn lemma_sh_len_stable()
    ensures
        len_stable(sh_len_fn()),
{
    assert forall|a: Seq<u8>, b: Seq<u8>|
        0 < sh_len_fn()(a) <= a.len() implies #[trigger] sh_len_fn()(a + b) == sh_len_fn()(a) by {
        assert((a + b)[0] == a[0]);
    }
}

proof fn lemma_sh_bits(
    f: u8,
    b0: u8,
    b1: u8,
    b2: u8,
    b3: u8,
    x0: u8,
    x1: u8,
    x2: u8,
    x3: u8,
    x4: u8,
    x5: u8,
    x6: u8,
)
    by (bit_vector)
    ensures
// flags byte
        x0 <= 1 && x1 <= 1 && x2 <= 1 ==> (((x0 << 7u8) | (x1 << 6u8) | (x2 << 5u8) | 0x1F) >> 7u8)
            & 0x01 == x0 && (((x0 << 7u8) | (x1 << 6u8) | (x2 << 5u8) | 0x1F) >> 6u8) & 0x01 == x1
            && (((x0 << 7u8) | (x1 << 6u8) | (x2 << 5u8) | 0x1F) >> 5u8) & 0x01 == x2,
        f & 0x1F == 0x1F ==> ((((f >> 7u8) & 0x01) << 7u8) | (((f >> 6u8) & 0x01) << 6u8) | (((f
            >> 5u8) & 0x01) << 5u8) | 0x1F) == f,
// TDM: x0 pol, x1 roll, x2 mode, x3 code rate, x4 symbol rate
        x0 < 4 && x1 < 4 && x2 < 4 && x3 < 16 && x4 < 32 ==> ((((x0 << 6u8) | ((x1 & 0x03) << 4u8)
            | ((x2 & 0x03) << 2u8) | ((x3 >> 2u8) & 0x03)) >> 6u8) == x0 && (((x0 << 6u8) | ((x1
            & 0x03) << 4u8) | ((x2 & 0x03) << 2u8) | ((x3 >> 2u8) & 0x03)) >> 4u8) & 0x03 == x1 && (((
            x0 << 6u8) | ((x1 & 0x03) << 4u8) | ((x2 & 0x03) << 2u8) | ((x3 >> 2u8) & 0x03)) >> 2u8)
            & 0x03 == x2 && (((((x0 << 6u8) | ((x1 & 0x03) << 4u8) | ((x2 & 0x03) << 2u8) | ((x3
            >> 2u8) & 0x03)) & 0x03) << 2u8) | ((((x3 & 0x03) << 6u8) | ((x4 & 0x1F) << 1u8) | 0x01)
            >> 6u8)) == x3 && ((((x3 & 0x03) << 6u8) | ((x4 & 0x1F) << 1u8) | 0x01) >> 1u8) & 0x1F
            == x4),
        b1 & 0x01 == 0x01 ==> ((b0 >> 6u8) << 6u8) | ((((b0 >> 4u8) & 0x03) & 0x03) << 4u8) | ((((
            b0 >> 2u8) & 0x03) & 0x03) << 2u8) | (((((b0 & 0x03) << 2u8) | (b1 >> 6u8)) >> 2u8) & 0x03)
            == b0 && ((((((b0 & 0x03) << 2u8) | (b1 >> 6u8)) & 0x03) << 6u8) | ((((b1 >> 1u8) & 0x1F)
            & 0x1F) << 1u8) | 0x01) == b1,
        b0 >> 6u8 < 4 && (b0 >> 4u8) & 0x03 < 4 && (b0 >> 2u8) & 0x03 < 4 && ((b0 & 0x03) << 2u8) | (
            b1 >> 6u8) < 16 && (b1 >> 1u8) & 0x1F < 32,
// OFDM: x0 bw, x1 prio, x2 ch, x3 code rate, x4 gi, x5 tm, x6 cf
        x0 < 8 && x1 <= 1 && x2 < 8 && x3 < 16 && x4 < 4 && x5 < 4 && x6 <= 1 ==> ((((x0 << 5u8) | (
            x1 << 4u8) | ((x2 & 0x07) << 1u8) | ((x3 >> 3u8) & 0x01)) >> 5u8) == x0 && ((((x0 << 5u8)
            | (x1 << 4u8) | ((x2 & 0x07) << 1u8) | ((x3 >> 3u8) & 0x01)) >> 4u8) & 0x01) == x1 && (((
            x0 << 5u8) | (x1 << 4u8) | ((x2 & 0x07) << 1u8) | ((x3 >> 3u8) & 0x01)) >> 1u8) & 0x07
            == x2 && (((((x0 << 5u8) | (x1 << 4u8) | ((x2 & 0x07) << 1u8) | ((x3 >> 3u8) & 0x01)) & 0x01)
            << 3u8) | ((((x3 & 0x07) << 5u8) | ((x4 & 0x03) << 3u8) | ((x5 & 0x03) << 1u8) | x6) >> 5u8))
            == x3 && ((((x3 & 0x07) << 5u8) | ((x4 & 0x03) << 3u8) | ((x5 & 0x03) << 1u8) | x6) >> 3u8)
            & 0x03 == x4 && ((((x3 & 0x07) << 5u8) | ((x4 & 0x03) << 3u8) | ((x5 & 0x03) << 1u8) | x6)
            >> 1u8) & 0x03 == x5 && ((((x3 & 0x07) << 5u8) | ((x4 & 0x03) << 3u8) | ((x5 & 0x03) << 1u8)
            | x6) & 0x01) == x6),
        ((b0 >> 5u8) << 5u8) | (((b0 >> 4u8) & 0x01) << 4u8) | ((((b0 >> 1u8) & 0x07) & 0x07) << 1u8)
            | (((((b0 & 0x01) << 3u8) | (b1 >> 5u8)) >> 3u8) & 0x01) == b0 && ((((((b0 & 0x01) << 3u8)
            | (b1 >> 5u8)) & 0x07) << 5u8) | ((((b1 >> 3u8) & 0x03) & 0x03) << 3u8) | ((((b1 >> 1u8)
            & 0x03) & 0x03) << 1u8) | (b1 & 0x01)) == b1,
        b0 >> 5u8 < 8 && (b0 >> 1u8) & 0x07 < 8 && ((b0 & 0x01) << 3u8) | (b1 >> 5u8) < 16 && (b1
            >> 3u8) & 0x03 < 4 && (b1 >> 1u8) & 0x03 < 4,
// Type0: x0 cm, x1 lt, x2 ns, x3 sd, x4 nli
        x0 < 64 && x1 < 64 && x2 < 64 && x4 < 64 ==> ((((x0 & 0x3F) << 2u8) | ((x1 & 0x3F) >> 4u8))
            >> 2u8 == x0 && (((((x0 & 0x3F) << 2u8) | ((x1 & 0x3F) >> 4u8)) & 0x03) << 4u8) | ((((x1
            & 0x3F) & 0x0F) << 4u8) | ((x2 & 0x3F) >> 2u8)) >> 4u8 == x1 && ((((((x1 & 0x3F) & 0x0F)
            << 4u8) | ((x2 & 0x3F) >> 2u8)) & 0x0F) << 2u8) | ((((x2 & 0x3F) & 0x03) << 6u8) | (x3
            >> 2u8)) >> 6u8 == x2 && ((((((x2 & 0x3F) & 0x03) << 6u8) | (x3 >> 2u8)) & 0x3F) << 2u8)
            | ((((x3 & 0x03) << 6u8) | (x4 & 0x3F)) >> 6u8) == x3 && (((x3 & 0x03) << 6u8) | (x4 & 0x3F))
            & 0x3F == x4),
        ((((b0 >> 2u8) & 0x3F) << 2u8) | (((((b0 & 0x03) << 4u8) | (b1 >> 4u8)) & 0x3F) >> 4u8)) == b0
            && ((((((b0 & 0x03) << 4u8) | (b1 >> 4u8)) & 0x3F) & 0x0F) << 4u8) | (((((b1 & 0x0F)
            << 2u8) | (b2 >> 6u8)) & 0x3F) >> 2u8) == b1 && ((((((b1 & 0x0F) << 2u8) | (b2 >> 6u8))
            & 0x3F) & 0x03) << 6u8) | ((((b2 & 0x3F) << 2u8) | (b3 >> 6u8)) >> 2u8) == b2 && (((((
            b2 & 0x3F) << 2u8) | (b3 >> 6u8)) & 0x03) << 6u8) | ((b3 & 0x3F) & 0x3F) == b3,
        b0 >> 2u8 < 64 && ((b0 & 0x03) << 4u8) | (b1 >> 4u8) < 64 && ((b1 & 0x0F) << 2u8) | (b2
            >> 6u8) < 64 && b3 & 0x3F < 64,
// Type1
        x0 < 64 ==> ((((x0 & 0x3F) << 2u8) | 0x03) >> 2u8) == x0,
        b0 & 0x03 == 0x03 ==> ((((b0 >> 2u8) & 0x3F) << 2u8) | 0x03) == b0,
        (f >> 7u8) & 0x01 < 2 && (f >> 6u8) & 0x01 < 2 && (f >> 5u8) & 0x01 < 2,
        (b0 >> 4u8) & 0x01 < 2 && b1 & 0x01 < 2,
// diversity byte
        x0 < 16 ==> ((x0 << 4u8) | 0x0F) >> 4u8 == x0,
        f & 0x0F == 0x0F ==> ((f >> 4u8) << 4u8) | 0x0F == f,
        f >> 4u8 < 16,
{
}

impl ShInterleaver {
    /// The interleaver bytes written by serialization.
    pub open spec fn wire(self) -> Seq<u8> {
        match self {
            ShInterleaver::Type0 {
                common_multiplier,
                nof_late_taps,
                nof_slices,
                slice_distance,
                non_late_increments,
            } => {
                let cm = common_multiplier & 0x3F;
                let lt = nof_late_taps & 0x3F;
                let ns = nof_slices & 0x3F;
                let sd = slice_distance;
                let nli = non_late_increments & 0x3F;
                seq![
                    (cm << 2u8) | (lt >> 4u8),
                    ((lt & 0x0F) << 4u8) | (ns >> 2u8),
                    ((ns & 0x03) << 6u8) | (sd >> 2u8),
                    ((sd & 0x03) << 6u8) | nli,
                ]
            },
            ShInterleaver::Type1 { common_multiplier } => seq![((common_multiplier & 0x3F) << 2u8) | 0x03],
        }
    }

    /// The 6-bit fields fit.
    pub open spec fn wf(self) -> bool {
        match self {
            ShInterleaver::Type0 {
                common_multiplier,
                nof_late_taps,
                nof_slices,
                slice_distance,
                non_late_increments,
            } => common_multiplier < 64 && nof_late_taps < 64 && nof_slices < 64 && non_late_increments < 64,
            ShInterleaver::Type1 { common_multiplier } => common_multiplier < 64,
        }
    }
}

impl ShModulationMode {
    /// The two modulation bytes written by serialization.
    pub open spec fn wire(self) -> Seq<u8> {
        match self {
            ShModulationMode::Tdm { polarization, roll_off, modulation_mode, code_rate, symbol_rate } => {
                let cr = code_rate.spec_to_u8();
                seq![
                    (polarization.spec_to_u8() << 6u8) | ((roll_off.spec_to_u8() & 0x03) << 4u8) | ((
                    modulation_mode.spec_to_u8() & 0x03) << 2u8) | ((cr >> 2u8) & 0x03),
                    ((cr & 0x03) << 6u8) | ((symbol_rate & 0x1F) << 1u8) | 0x01,
                ]
            },
            ShModulationMode::Ofdm {
                bandwidth,
                priority,
                constellation_and_hierarchy,
                code_rate,
                guard_interval,
                transmission_mode,
                common_frequency,
            } => {
                let cr = code_rate.spec_to_u8();
                seq![
                    (bandwidth.spec_to_u8() << 5u8) | (bit(priority) << 4u8) | ((
                    constellation_and_hierarchy.spec_to_u8() & 0x07) << 1u8) | ((cr >> 3u8) & 0x01),
                    ((cr & 0x07) << 5u8) | ((guard_interval.spec_to_u8() & 0x03) << 3u8) | ((
                    transmission_mode.spec_to_u8() & 0x03) << 1u8) | bit(common_frequency),
                ]
            },
        }
    }

    /// Every coded field is a canonical variant that fits its bit width.
    pub open spec fn wf(self) -> bool {
        match self {
            ShModulationMode::Tdm { polarization, roll_off, modulation_mode, code_rate, symbol_rate } => {
                &&& polarization.wf() && polarization.spec_to_u8() < 4
                &&& roll_off.wf() && roll_off.spec_to_u8() < 4
                &&& modulation_mode.wf() && modulation_mode.spec_to_u8() < 4
                &&& code_rate.wf() && code_rate.spec_to_u8() < 16
                &&& symbol_rate < 32
            },
            ShModulationMode::Ofdm {
                bandwidth,
                priority,
                constellation_and_hierarchy,
                code_rate,
                guard_interval,
                transmission_mode,
                common_frequency,
            } => {
                &&& bandwidth.wf() && bandwidth.spec_to_u8() < 8
                &&& constellation_and_hierarchy.wf() && constellation_and_hierarchy.spec_to_u8() < 8
                &&& code_rate.wf() && code_rate.spec_to_u8() < 16
                &&& guard_interval.wf() && guard_interval.spec_to_u8() < 4
                &&& transmission_mode.wf() && transmission_mode.spec_to_u8() < 4
            },
        }
    }
}

impl ShModulation {
    /// The entry decoded from its bytes `t`.
    pub open spec fn spec_parse(t: Seq<u8>) -> ShModulation {
        let f = t[0];
        let mb0 = t[1];
        let mb1 = t[2];
        let modulation = if (f >> 7u8) & 0x01 == 0 {
            ShModulationMode::Tdm {
                polarization: ShPolarization::spec_from_u8(mb0 >> 6u8),
                roll_off: ShRollOff::spec_from_u8((mb0 >> 4u8) & 0x03),
                modulation_mode: ShModulationModeType::spec_from_u8((mb0 >> 2u8) & 0x03),
                code_rate: ShCodeRate::spec_from_u8(((mb0 & 0x03) << 2u8) | (mb1 >> 6u8)),
                symbol_rate: (mb1 >> 1u8) & 0x1F,
            }
        } else {
            ShModulationMode::Ofdm {
                bandwidth: ShBandwidth::spec_from_u8(mb0 >> 5u8),
                priority: ((mb0 >> 4u8) & 0x01) != 0,
                constellation_and_hierarchy: ShConstellationAndHierarchy::spec_from_u8((mb0 >> 1u8) & 0x07),
                code_rate: ShCodeRate::spec_from_u8(((mb0 & 0x01) << 3u8) | (mb1 >> 5u8)),
                guard_interval: ShGuardInterval::spec_from_u8((mb1 >> 3u8) & 0x03),
                transmission_mode: ShTransmissionMode::spec_from_u8((mb1 >> 1u8) & 0x03),
                common_frequency: (mb1 & 0x01) != 0,
            }
        };
        let interleaver = if (f >> 6u8) & 0x01 == 1 {
            if (f >> 5u8) & 0x01 == 0 {
                Some(
                    ShInterleaver::Type0 {
                        common_multiplier: t[3] >> 2u8,
                        nof_late_taps: ((t[3] & 0x03) << 4u8) | (t[4] >> 4u8),
                        nof_slices: ((t[4] & 0x0F) << 2u8) | (t[5] >> 6u8),
                        slice_distance: ((t[5] & 0x3F) << 2u8) | (t[6] >> 6u8),
                        non_late_increments: t[6] & 0x3F,
                    },
                )
            } else {
                Some(ShInterleaver::Type1 { common_multiplier: t[3] >> 2u8 })
            }
        } else {
            None
        };
        ShModulation { modulation, interleaver }
    }

    /// The flags byte: modulation_type(1) | interleaver_presence(1) | interleaver_type(1) | reserved(5)=1s.
    pub open spec fn flags(self) -> u8 {
        let mt: u8 = if self.modulation is Ofdm {
            1
        } else {
            0
        };
        let ip: u8 = if self.interleaver is Some {
            1
        } else {
            0
        };
        let it: u8 = if self.interleaver matches Some(ShInterleaver::Type1 { .. }) {
            1
        } else {
            0
        };
        (mt << 7u8) | (ip << 6u8) | (it << 5u8) | 0x1F
    }

    /// The entry bytes written by serialization.
    pub open spec fn wire(self) -> Seq<u8> {
        seq![self.flags()] + self.modulation.wire() + match self.interleaver {
            Some(i) => i.wire(),
            None => Seq::empty(),
        }
    }

    /// All fields fit.
    pub open spec fn wf(self) -> bool {
        self.modulation.wf() && match self.interleaver {
            Some(i) => i.wf(),
            None => true,
        }
    }

    /// The reserved bits of the entry bytes `t` are as serialization writes them.
    pub open spec fn canonical(t: Seq<u8>) -> bool {
        &&& t[0] & 0x1F == 0x1F
        &&& (t[0] >> 6u8) & 0x01 == 0 ==> (t[0] >> 5u8) & 0x01 == 0
        &&& (t[0] >> 7u8) & 0x01 == 0 ==> t[2] & 0x01 == 0x01
        &&& ((t[0] >> 6u8) & 0x01 == 1 && (t[0] >> 5u8) & 0x01 == 1) ==> t[3] & 0x03 == 0x03
    }

    /// Parses the entry at `sel[p..]`, which holds it completely.
    pub fn parse_at(sel: &[u8], p: usize) -> (e: Self)
        requires
            p < sel.len(),
            p + sh_entry_len(sel@.subrange(p as int, sel@.len() as int)) <= sel.len(),
        ensures
            e == Self::spec_parse(sel@.subrange(p as int, p + sh_entry_len(sel@.subrange(p as int, sel@.len() as int)))),
    {
        let ghost t = sel@.subrange(p as int, p + sh_entry_len(sel@.subrange(p as int, sel@.len() as int)));
        let f = sel[p];
        let mb0 = sel[p + 1];
        let mb1 = sel[p + 2];
        let modulation = if (f >> 7u8) & 0x01 == 0 {
            ShModulationMode::Tdm {
                polarization: ShPolarization::from_u8(mb0 >> 6u8),
                roll_off: ShRollOff::from_u8((mb0 >> 4u8) & 0x03),
                modulation_mode: ShModulationModeType::from_u8((mb0 >> 2u8) & 0x03),
                code_rate: ShCodeRate::from_u8(((mb0 & 0x03) << 2u8) | (mb1 >> 6u8)),
                symbol_rate: (mb1 >> 1u8) & 0x1F,
            }
        } else {
            ShModulationMode::Ofdm {
                bandwidth: ShBandwidth::from_u8(mb0 >> 5u8),
                priority: ((mb0 >> 4u8) & 0x01) != 0,
                constellation_and_hierarchy: ShConstellationAndHierarchy::from_u8((mb0 >> 1u8) & 0x07),
                code_rate: ShCodeRate::from_u8(((mb0 & 0x01) << 3u8) | (mb1 >> 5u8)),
                guard_interval: ShGuardInterval::from_u8((mb1 >> 3u8) & 0x03),
                transmission_mode: ShTransmissionMode::from_u8((mb1 >> 1u8) & 0x03),
                common_frequency: (mb1 & 0x01) != 0,
            }
        };
        let interleaver = if (f >> 6u8) & 0x01 == 1 {
            if (f >> 5u8) & 0x01 == 0 {
                let b0 = sel[p + 3];
                let b1 = sel[p + 4];
                let b2 = sel[p + 5];
                let b3 = sel[p + 6];
                Some(
                    ShInterleaver::Type0 {
                        common_multiplier: b0 >> 2u8,
                        nof_late_taps: ((b0 & 0x03) << 4u8) | (b1 >> 4u8),
                        nof_slices: ((b1 & 0x0F) << 2u8) | (b2 >> 6u8),
                        slice_distance: ((b2 & 0x3F) << 2u8) | (b3 >> 6u8),
                        non_late_increments: b3 & 0x3F,
                    },
                )
            } else {
                Some(ShInterleaver::Type1 { common_multiplier: sel[p + 3] >> 2u8 })
            }
        } else {
            None
        };
        ShModulation { modulation, interleaver }
    }

    /// Appends the entry bytes to `out`.
    pub fn write_to(&self, out: &mut Vec<u8>)
        ensures
            final(out)@ == old(out)@ + self.wire(),
    {
        let mt: u8 = match self.modulation {
            ShModulationMode::Ofdm { .. } => 1,
            _ => 0,
        };
        let ip: u8 = if self.interleaver.is_some() {
            1
        } else {
            0
        };
        let it: u8 = match self.interleaver {
            Some(ShInterleaver::Type1 { .. }) => 1,
            _ => 0,
        };
        push_u8(out, (mt << 7u8) | (ip << 6u8) | (it << 5u8) | 0x1F);
        match self.modulation {
            ShModulationMode::Tdm { polarization, roll_off, modulation_mode, code_rate, symbol_rate } => {
                let cr = code_rate.to_u8();
                push_u8(
                    out,
                    (polarization.to_u8() << 6u8) | ((roll_off.to_u8() & 0x03) << 4u8) | ((modulation_mode.to_u8()
                        & 0x03) << 2u8) | ((cr >> 2u8) & 0x03),
                );
                push_u8(out, ((cr & 0x03) << 6u8) | ((symbol_rate & 0x1F) << 1u8) | 0x01);
            },
            ShModulationMode::Ofdm {
                bandwidth,
                priority,
                constellation_and_hierarchy,
                code_rate,
                guard_interval,
                transmission_mode,
                common_frequency,
            } => {
                let cr = code_rate.to_u8();
                let pr: u8 = if priority {
                    1
                } else {
                    0
                };
                let cf: u8 = if common_frequency {
                    1
                } else {
                    0
                };
                push_u8(
                    out,
                    (bandwidth.to_u8() << 5u8) | (pr << 4u8) | ((constellation_and_hierarchy.to_u8() & 0x07)
                        << 1u8) | ((cr >> 3u8) & 0x01),
                );
                push_u8(
                    out,
                    ((cr & 0x07) << 5u8) | ((guard_interval.to_u8() & 0x03) << 3u8) | ((
                    transmission_mode.to_u8() & 0x03) << 1u8) | cf,
                );
            },
        }
        match self.interleaver {
            Some(
                ShInterleaver::Type0 {
                    common_multiplier,
                    nof_late_taps,
                    nof_slices,
                    slice_distance,
                    non_late_increments,
                },
            ) => {
                let cm = common_multiplier & 0x3F;
                let lt = nof_late_taps & 0x3F;
                let ns = nof_slices & 0x3F;
                let sd = slice_distance;
                let nli = non_late_increments & 0x3F;
                push_u8(out, (cm << 2u8) | (lt >> 4u8));
                push_u8(out, ((lt & 0x0F) << 4u8) | (ns >> 2u8));
                push_u8(out, ((ns & 0x03) << 6u8) | (sd >> 2u8));
                push_u8(out, ((sd & 0x03) << 6u8) | nli);
            },
            Some(ShInterleaver::Type1 { common_multiplier }) => {
                push_u8(out, ((common_multiplier & 0x3F) << 2u8) | 0x03);
            },
            None => {},
        }
        assert(out@ =~= old(out)@ + self.wire());
    }
}

/// Encoding then decoding a well-formed entry gives it back, and the encoding is
/// sized by its own flags byte.
pub proof fn lemma_sh_entry_encode_parse(e: ShModulation)
    requires
        e.wf(),
    ensures
        sh_entry_len(e.wire()) == e.wire().len(),
        ShModulation::spec_parse(e.wire()) == e,
{
    let w = e.wire();
    let mt: u8 = if e.modulation is Ofdm { 1 } else { 0 };
    let ip: u8 = if e.interleaver is Some { 1 } else { 0 };
    let it: u8 = if e.interleaver matches Some(ShInterleaver::Type1 { .. }) { 1 } else { 0 };
    lemma_sh_bits(0, 0, 0, 0, 0, mt, ip, it, 0, 0, 0, 0);
    match e.modulation {
        ShModulationMode::Tdm { polarization, roll_off, modulation_mode, code_rate, symbol_rate } => {
            lemma_sh_bits(
                0, 0, 0, 0, 0,
                polarization.spec_to_u8(), roll_off.spec_to_u8(), modulation_mode.spec_to_u8(),
                code_rate.spec_to_u8(), symbol_rate, 0, 0,
            );
        },
        ShModulationMode::Ofdm {
            bandwidth,
            priority,
            constellation_and_hierarchy,
            code_rate,
            guard_interval,
            transmission_mode,
            common_frequency,
        } => {
            lemma_sh_bits(
                0, 0, 0, 0, 0,
                bandwidth.spec_to_u8(), bit(priority), constellation_and_hierarchy.spec_to_u8(),
                code_rate.spec_to_u8(), guard_interval.spec_to_u8(), transmission_mode.spec_to_u8(),
                bit(common_frequency),
            );
        },
    }
    match e.interleaver {
        Some(ShInterleaver::Type0 { common_multiplier, nof_late_taps, nof_slices, slice_distance, non_late_increments }) => {
            lemma_sh_bits(
                0, 0, 0, 0, 0,
                common_multiplier, nof_late_taps, nof_slices, slice_distance, non_late_increments, 0, 0,
            );
        },
        Some(ShInterleaver::Type1 { common_multiplier }) => {
            lemma_sh_bits(0, 0, 0, 0, 0, common_multiplier, 0, 0, 0, 0, 0, 0);
        },
        None => {},
    }
    assert(ShModulation::spec_parse(w).modulation == e.modulation);
    assert(ShModulation::spec_parse(w).interleaver == e.interleaver);
}

/// Decoding then encoding canonical entry bytes gives them back.
pub proof fn lemma_sh_entry_parse_encode(t: Seq<u8>)
    requires
        t.len() >= 1,
        sh_entry_len(t) == t.len(),
        ShModulation::canonical(t),
    ensures
        ShModulation::spec_parse(t).wire() == t,
        ShModulation::spec_parse(t).wf(),
{
    let e = ShModulation::spec_parse(t);
    lemma_sh_bits(t[0], 0, 0, 0, 0, 0, 0, 0, 0, 0, 0, 0);
    lemma_sh_bits(0, t[1], t[2], 0, 0, 0, 0, 0, 0, 0, 0, 0);
    let mb0 = t[1];
    let mb1 = t[2];
    ShPolarization::lemma_from_to(mb0 >> 6u8);
    ShRollOff::lemma_from_to((mb0 >> 4u8) & 0x03);
    ShModulationModeType::lemma_from_to((mb0 >> 2u8) & 0x03);
    ShCodeRate::lemma_from_to(((mb0 & 0x03) << 2u8) | (mb1 >> 6u8));
    ShBandwidth::lemma_from_to(mb0 >> 5u8);
    ShConstellationAndHierarchy::lemma_from_to((mb0 >> 1u8) & 0x07);
    ShCodeRate::lemma_from_to(((mb0 & 0x01) << 3u8) | (mb1 >> 5u8));
    ShGuardInterval::lemma_from_to((mb1 >> 3u8) & 0x03);
    ShTransmissionMode::lemma_from_to((mb1 >> 1u8) & 0x03);
    if t.len() == 7 {
        lemma_sh_bits(0, t[3], t[4], t[5], t[6], 0, 0, 0, 0, 0, 0, 0);
    } else if t.len() == 4 {
        lemma_sh_bits(0, t[3], 0, 0, 0, 0, 0, 0, 0, 0, 0, 0);
    }
    assert(e.wire() =~= t);
}

proof fn lemma_sh_entry_relength(t: Seq<u8>)
    requires
        t.len() >= 1,
        sh_entry_len(t) == t.len(),
    ensures
        ShModulation::spec_parse(t).wire().len() == t.len(),
        ShModulation::spec_parse(t).wf(),
{
    let e = ShModulation::spec_parse(t);
    lemma_sh_bits(t[0], 0, 0, 0, 0, 0, 0, 0, 0, 0, 0, 0);
    lemma_sh_bits(0, t[1], t[2], 0, 0, 0, 0, 0, 0, 0, 0, 0);
    let mb0 = t[1];
    let mb1 = t[2];
    ShPolarization::lemma_from_to(mb0 >> 6u8);
    ShRollOff::lemma_from_to((mb0 >> 4u8) & 0x03);
    ShModulationModeType::lemma_from_to((mb0 >> 2u8) & 0x03);
    ShCodeRate::lemma_from_to(((mb0 & 0x03) << 2u8) | (mb1 >> 6u8));
    ShBandwidth::lemma_from_to(mb0 >> 5u8);
    ShConstellationAndHierarchy::lemma_from_to((mb0 >> 1u8) & 0x07);
    ShCodeRate::lemma_from_to(((mb0 & 0x01) << 3u8) | (mb1 >> 5u8));
    ShGuardInterval::lemma_from_to((mb1 >> 3u8) & 0x03);
    ShTransmissionMode::lemma_from_to((mb1 >> 1u8) & 0x03);
    if t.len() == 7 {
        lemma_sh_bits(0, t[3], t[4], t[5], t[6], 0, 0, 0, 0, 0, 0, 0);
    } else if t.len() == 4 {
        lemma_sh_bits(0, t[3], 0, 0, 0, 0, 0, 0, 0, 0, 0, 0);
    }
}

/// SH_delivery_system body (Table 119).
#[derive(Debug, Clone, PartialEq, Eq)]
pub struct ShDeliverySystem {
    /// diversity_mode(4) — Table 120.
    pub diversity_mode: ShDiversityMode,
    /// Modulation loop entries in wire order.
    pub modulations: Vec<ShModulation>,
}

impl ShDeliverySystem {
    /// The modulation loop bytes of the selector `s`.
    pub open spec fn loop_bytes(s: Seq<u8>) -> Seq<u8> {
        s.subrange(1, s.len() as int)
    }

    /// Parsing succeeds on exactly these selector bytes.
    pub open spec fn sel_ok(s: Seq<u8>) -> bool {
        s.len() >= 1 && run_ok(Self::loop_bytes(s), sh_len_fn())
    }

    /// The error reported for selector bytes that do not parse: where the loop
    /// stops, either the 3 fixed entry bytes or the interleaver bytes run out.
    pub open spec fn sel_error(e: Error, s: Seq<u8>) -> bool {
        if s.len() < 1 {
            is_too_short(e, 1, s.len() as int)
        } else {
            let b = Self::loop_bytes(s);
            let f = run_fail_at(b, sh_len_fn());
            if b.len() - f < 3 {
                is_too_short(e, sat(1 + f + 3), s.len() as int)
            } else {
                is_too_short(e, sat(1 + f + sh_entry_len(b.subrange(f, b.len() as int))), s.len() as int)
            }
        }
    }

    /// The reserved bits are as serialization writes them.
    pub open spec fn canonical(s: Seq<u8>) -> bool {
        s[0] & 0x0F == 0x0F && run_all(Self::loop_bytes(s), sh_len_fn(), sh_canon_fn())
    }

    /// `self` is what parsing the selector bytes `s` yields.
    pub open spec fn decodes(&self, s: Seq<u8>) -> bool {
        &&& self.diversity_mode == ShDiversityMode::spec_from_u8(s[0] >> 4u8)
        &&& run_decodes(self.modulations@, Self::loop_bytes(s), sh_len_fn(), sh_dec_fn())
    }

    /// The selector bytes written by `serialize_into`.
    pub open spec fn wire(&self) -> Seq<u8> {
        seq![(self.diversity_mode.spec_to_u8() << 4u8) | 0x0F] + concat_map(self.modulations@, sh_enc_fn())
    }

    /// The diversity mode fits 4 bits and every entry is well formed.
    pub open spec fn wf(&self) -> bool {
        &&& self.diversity_mode.wf()
        &&& self.diversity_mode.spec_to_u8() < 16
        &&& forall|i: int| 0 <= i < self.modulations@.len() ==> #[trigger] self.modulations@[i].wf()
    }

    /// Parses the SH_delivery_system body.
    pub fn parse(sel: &[u8]) -> (r: Result<Self, Error>)
        ensures
            r is Ok <==> Self::sel_ok(sel@),
            r matches Ok(d) ==> d.decodes(sel@),
            r matches Err(e) ==> Self::sel_error(e, sel@),
    {
        if sel.len() == 0 {
            return Err(Error::BufferTooShort { need: 1, have: sel.len(), what: "SH_delivery_system body" });
        }
        let diversity_mode = ShDiversityMode::from_u8(sel[0] >> 4u8);
        let ghost b = Self::loop_bytes(sel@);
        proof {
            lemma_sh_len_stable();
            assert(b.subrange(0, 0) =~= Seq::<u8>::empty());
            assert(b.subrange(0, b.len() as int) =~= b);
        }
        let mut pos: usize = 1;
        let mut modulations: Vec<ShModulation> = Vec::new();
        while pos < sel.len()
            invariant
                1 <= pos <= sel.len(),
                b == Self::loop_bytes(sel@),
                len_stable(sh_len_fn()),
                run_ok(b, sh_len_fn()) == run_ok(b.subrange(pos - 1, b.len() as int), sh_len_fn()),
                run_fail_at(b, sh_len_fn()) == (pos - 1) + run_fail_at(b.subrange(pos - 1, b.len() as int), sh_len_fn()),
                run_decodes(modulations@, b.subrange(0, pos - 1), sh_len_fn(), sh_dec_fn()),
            decreases sel.len() - pos,
        {
            let ghost t = b.subrange(pos - 1, b.len() as int);
            assert(t =~= sel@.subrange(pos as int, sel@.len() as int));
            if sel.len() - pos < 3 {
                return Err(
                    Error::BufferTooShort { need: pos.saturating_add(3), have: sel.len(), what: "SH_delivery_system body" },
                );
            }
            let flags = sel[pos];
            let need: usize = if (flags >> 6u8) & 0x01 == 1 {
                if (flags >> 5u8) & 0x01 == 0 {
                    7
                } else {
                    4
                }
            } else {
                3
            };
            assert(need == sh_entry_len(t));
            if sel.len() - pos < need {
                return Err(
                    Error::BufferTooShort { need: pos.saturating_add(need), have: sel.len(), what: "SH_delivery_system body" },
                );
            }
            let m = ShModulation::parse_at(sel, pos);
            proof {
                lemma_run_step(b, pos - 1, sh_len_fn());
                let e = b.subrange(pos - 1, pos - 1 + need);
                assert(e =~= sel@.subrange(pos as int, pos + need));
                assert(sh_len_fn()(e) == need) by {
                    assert(e[0] == t[0]);
                }
                lemma_run_push(modulations@, b.subrange(0, pos - 1), m, e, sh_len_fn(), sh_dec_fn());
                assert(b.subrange(0, pos - 1) + e =~= b.subrange(0, pos - 1 + need));
            }
            modulations.push(m);
            pos = pos + need;
        }
        proof {
            assert(b.subrange(0, pos - 1) =~= b);
        }
        Ok(ShDeliverySystem { diversity_mode, modulations })
    }

    /// Length of the selector bytes.
    pub fn serialized_len(&self) -> (n: usize)
        requires
            self.wire().len() <= usize::MAX,
        ensures
            n == self.wire().len(),
    {
        let mut total: usize = 1;
        let mut i: usize = 0;
        while i < self.modulations.len()
            invariant
                i <= self.modulations@.len(),
                self.wire().len() <= usize::MAX,
                total == 1 + concat_map(self.modulations@.subrange(0, i as int), sh_enc_fn()).len(),
            decreases self.modulations@.len() - i,
        {
            proof {
                lemma_concat_map_push(self.modulations@.subrange(0, i as int), self.modulations@[i as int], sh_enc_fn());
                assert(self.modulations@.subrange(0, i as int).push(self.modulations@[i as int]) =~= self.modulations@.subrange(0, i + 1));
                lemma_concat_map_prefix_len(self.modulations@, i + 1, sh_enc_fn());
            }
            let il: usize = match self.modulations[i].interleaver {
                None => 0,
                Some(ShInterleaver::Type0 { .. }) => 4,
                Some(ShInterleaver::Type1 { .. }) => 1,
            };
            total = total + 3 + il;
            i = i + 1;
        }
        assert(self.modulations@.subrange(0, i as int) =~= self.modulations@);
        total
    }

    /// Writes the selector bytes to the front of `buf`.
    pub fn serialize_into(&self, buf: &mut [u8]) -> (r: Result<usize, Error>)
        requires
            self.wire().len() <= usize::MAX,
        ensures
            emitted(r, old(buf)@, final(buf)@, self.wire()),
    {
        let len = self.serialized_len();
        if buf.len() < len {
            return Err(Error::OutputBufferTooSmall { need: len, have: buf.len() });
        }
        let mut v: Vec<u8> = Vec::new();
        self.write_to(&mut v);
        copy_to_front(buf, &v);
        Ok(len)
    }

    /// Appends the selector bytes to `out`.
    pub fn write_to(&self, out: &mut Vec<u8>)
        ensures
            final(out)@ == old(out)@ + self.wire(),
    {
        push_u8(out, (self.diversity_mode.to_u8() << 4u8) | 0x0F);
        let ghost start = out@;
        let mut i: usize = 0;
        while i < self.modulations.len()
            invariant
                i <= self.modulations@.len(),
                out@ == start + concat_map(self.modulations@.subrange(0, i as int), sh_enc_fn()),
            decreases self.modulations@.len() - i,
        {
            proof {
                lemma_concat_map_push(self.modulations@.subrange(0, i as int), self.modulations@[i as int], sh_enc_fn());
                assert(self.modulations@.subrange(0, i as int).push(self.modulations@[i as int]) =~= self.modulations@.subrange(0, i + 1));
            }
            self.modulations[i].write_to(out);
            i = i + 1;
            assert(out@ =~= start + concat_map(self.modulations@.subrange(0, i as int), sh_enc_fn()));
        }
        assert(self.modulations@.subrange(0, i as int) =~= self.modulations@);
        assert(out@ =~= old(out)@ + self.wire());
    }
}

/// Encoding then parsing a well-formed SH_delivery_system body gives it back.
pub proof fn lemma_sh_delivery_system_encode_parse(d: ShDeliverySystem)
    requires
        d.wf(),
    ensures
        ShDeliverySystem::sel_ok(d.wire()),
        d.decodes(d.wire()),
{
    let w = d.wire();
    lemma_sh_len_stable();
    lemma_sh_bits(0, 0, 0, 0, 0, d.diversity_mode.spec_to_u8(), 0, 0, 0, 0, 0, 0);
    let es = d.modulations@;
    assert forall|i: int| 0 <= i < es.len() implies 0 < sh_len_fn()(#[trigger] sh_enc_fn()(es[i]))
        == sh_enc_fn()(es[i]).len() && sh_dec_fn()(es[i], sh_enc_fn()(es[i])) by {
        assert(es[i].wf());
        lemma_sh_entry_encode_parse(es[i]);
    }
    lemma_run_of_encoded(es, sh_len_fn(), sh_dec_fn(), sh_enc_fn());
    assert(ShDeliverySystem::loop_bytes(w) =~= concat_map(es, sh_enc_fn()));
}

/// Parsing then encoding canonical SH_delivery_system bytes gives them back.
pub proof fn lemma_sh_delivery_system_parse_encode(s: Seq<u8>, d: ShDeliverySystem)
    requires
        ShDeliverySystem::sel_ok(s),
        ShDeliverySystem::canonical(s),
        d.decodes(s),
    ensures
        d.wire() == s,
        d.wf(),
{
    let b = ShDeliverySystem::loop_bytes(s);
    lemma_sh_bits(s[0], 0, 0, 0, 0, 0, 0, 0, 0, 0, 0, 0);
    ShDiversityMode::lemma_from_to(s[0] >> 4u8);
    assert forall|e: ShModulation, t: Seq<u8>| #[trigger] sh_dec_fn()(e, t) && sh_canon_fn()(t) implies sh_enc_fn()(e)
        == t && sh_good_fn()(e) by {
        lemma_sh_entry_parse_encode(t);
    }
    lemma_run_reencodes(d.modulations@, b, sh_len_fn(), sh_dec_fn(), sh_enc_fn(), sh_canon_fn(), sh_good_fn());
    assert(d.wire() =~= s);
    assert forall|i: int| 0 <= i < d.modulations@.len() implies #[trigger] d.modulations@[i].wf() by {
        assert(sh_good_fn()(d.modulations@[i]));
    }
}

/// A parsed ShDeliverySystem is well formed: it encodes again, and parsing that encoding
/// yields it back.
pub proof fn lemma_sh_delivery_system_reparse(s: Seq<u8>, d: ShDeliverySystem)
    requires
        ShDeliverySystem::sel_ok(s),
        d.decodes(s),
    ensures
        d.wf(),
        ShDeliverySystem::sel_ok(d.wire()),
        d.decodes(d.wire()),
        d.wire().len() <= s.len(),
{
    lemma_sh_bits(s[0], 0, 0, 0, 0, 0, 0, 0, 0, 0, 0, 0);
    ShDiversityMode::lemma_from_to(s[0] >> 4u8);
    assert forall|e: ShModulation, t: Seq<u8>| #[trigger] sh_dec_fn()(e, t) implies sh_enc_fn()(e).len()
        <= t.len() && sh_good_fn()(e) by {
        lemma_sh_entry_relength(t);
    }
    lemma_run_relength(
        d.modulations@,
        ShDeliverySystem::loop_bytes(s),
        sh_len_fn(),
        sh_dec_fn(),
        sh_enc_fn(),
        sh_good_fn(),
    );
    assert forall|i: int| 0 <= i < d.modulations@.len() implies #[trigger] d.modulations@[i].wf() by {
        assert(sh_good_fn()(d.modulations@[i]));
    }
    lemma_sh_delivery_system_encode_parse(d);
}

pub open spec fn sh_same_fn() -> spec_fn(ShModulation, ShModulation) -> bool {
    |a: ShModulation, b: ShModulation| a == b
}

/// Parsing, encoding and parsing again gives the same value: whatever parses
/// from the encoding of a parsed ShDeliverySystem holds the same modulation
/// entries and equals it otherwise.
pub proof fn lemma_sh_delivery_system_round_trip(s: Seq<u8>, d: ShDeliverySystem, d2: ShDeliverySystem)
    requires
        ShDeliverySystem::sel_ok(s),
        d.decodes(s),
        d2.decodes(d.wire()),
    ensures
        d2.modulations@ == d.modulations@,
        d2 == (ShDeliverySystem { modulations: d2.modulations, ..d }),
{
    lemma_sh_delivery_system_reparse(s, d);
    lemma_run_decodes_same(
        d2.modulations@,
        d.modulations@,
        ShDeliverySystem::loop_bytes(d.wire()),
        sh_len_fn(),
        sh_dec_fn(),
        sh_same_fn(),
    );
    assert forall|i: int| 0 <= i < d.modulations@.len() implies d2.modulations@[i] == d.modulations@[i] by {
        assert(sh_same_fn()(d2.modulations@[i], d.modulations@[i]));
    }
    assert(d2.modulations@ =~= d.modulations@);
}

impl ShDiversityMode {
    /// The EN 300 468 SH diversity_mode codes: each code and the variant it stands for, in literal values.
    pub proof fn lemma_codes()
        ensures
            ShDiversityMode::spec_from_u8(0) == ShDiversityMode::NoDiversity,
            ShDiversityMode::spec_from_u8(8) == ShDiversityMode::PaTsOnly,
            ShDiversityMode::spec_from_u8(13) == ShDiversityMode::FecAtLink,
            ShDiversityMode::spec_from_u8(14) == ShDiversityMode::FecAtPhy,
            ShDiversityMode::spec_from_u8(15) == ShDiversityMode::FecAtPhyAndLink,
            ShDiversityMode::NoDiversity.spec_to_u8() == 0,
            ShDiversityMode::PaTsOnly.spec_to_u8() == 8,
            ShDiversityMode::FecAtLink.spec_to_u8() == 13,
            ShDiversityMode::FecAtPhy.spec_to_u8() == 14,
            ShDiversityMode::FecAtPhyAndLink.spec_to_u8() == 15,
            forall|v: u8| v != 0 && v != 8 && v != 13 && v != 14 && v != 15 ==> #[trigger] ShDiversityMode::spec_from_u8(v) == ShDiversityMode::Reserved(v),
            forall|v: u8| #[trigger] ShDiversityMode::Reserved(v).spec_to_u8() == v,
    {
    }
}

impl ShPolarization {
    /// The EN 300 468 SH TDM polarization codes: each code and the variant it stands for, in literal values.
    pub proof fn lemma_codes()
        ensures
            ShPolarization::spec_from_u8(0) == ShPolarization::LinearHorizontal,
            ShPolarization::spec_from_u8(1) == ShPolarization::LinearVertical,
            ShPolarization::spec_from_u8(2) == ShPolarization::CircularLeft,
            ShPolarization::spec_from_u8(3) == ShPolarization::CircularRight,
            ShPolarization::LinearHorizontal.spec_to_u8() == 0,
            ShPolarization::LinearVertical.spec_to_u8() == 1,
            ShPolarization::CircularLeft.spec_to_u8() == 2,
            ShPolarization::CircularRight.spec_to_u8() == 3,
            forall|v: u8| v != 0 && v != 1 && v != 2 && v != 3 ==> #[trigger] ShPolarization::spec_from_u8(v) == ShPolarization::Reserved(v),
            forall|v: u8| #[trigger] ShPolarization::Reserved(v).spec_to_u8() == v,
    {
    }
}

impl ShRollOff {
    /// The EN 300 468 SH TDM roll_off codes: each code and the variant it stands for, in literal values.
    pub proof fn lemma_codes()
        ensures
            ShRollOff::spec_from_u8(0) == ShRollOff::Alpha035,
            ShRollOff::spec_from_u8(1) == ShRollOff::Alpha025,
            ShRollOff::spec_from_u8(2) == ShRollOff::Alpha015,
            ShRollOff::Alpha035.spec_to_u8() == 0,
            ShRollOff::Alpha025.spec_to_u8() == 1,
            ShRollOff::Alpha015.spec_to_u8() == 2,
            forall|v: u8| v != 0 && v != 1 && v != 2 ==> #[trigger] ShRollOff::spec_from_u8(v) == ShRollOff::Reserved(v),
            forall|v: u8| #[trigger] ShRollOff::Reserved(v).spec_to_u8() == v,
    {
    }
}

impl ShModulationModeType {
    /// The EN 300 468 SH TDM modulation_mode codes: each code and the variant it stands for, in literal values.
    pub proof fn lemma_codes()
        ensures
            ShModulationModeType::spec_from_u8(0) == ShModulationModeType::Qpsk,
            ShModulationModeType::spec_from_u8(1) == ShModulationModeType::Psk8,
            ShModulationModeType::spec_from_u8(2) == ShModulationModeType::Apsk16,
            ShModulationModeType::Qpsk.spec_to_u8() == 0,
            ShModulationModeType::Psk8.spec_to_u8() == 1,
            ShModulationModeType::Apsk16.spec_to_u8() == 2,
            forall|v: u8| v != 0 && v != 1 && v != 2 ==> #[trigger] ShModulationModeType::spec_from_u8(v) == ShModulationModeType::Reserved(v),
            forall|v: u8| #[trigger] ShModulationModeType::Reserved(v).spec_to_u8() == v,
    {
    }
}

impl ShCodeRate {
    /// The EN 300 468 SH code_rate codes: each code and the variant it stands for, in literal values.
    pub proof fn lemma_codes()
        ensures
            ShCodeRate::spec_from_u8(0) == ShCodeRate::Rate1_5Standard,
            ShCodeRate::spec_from_u8(1) == ShCodeRate::Rate2_9Standard,
            ShCodeRate::spec_from_u8(2) == ShCodeRate::Rate1_4Standard,
            ShCodeRate::spec_from_u8(3) == ShCodeRate::Rate2_7Standard,
            ShCodeRate::spec_from_u8(4) == ShCodeRate::Rate1_3Standard,
            ShCodeRate::spec_from_u8(5) == ShCodeRate::Rate1_3Complementary,
            ShCodeRate::spec_from_u8(6) == ShCodeRate::Rate2_5Standard,
            ShCodeRate::spec_from_u8(7) == ShCodeRate::Rate2_5Complementary,
            ShCodeRate::spec_from_u8(8) == ShCodeRate::Rate1_2Standard,
            ShCodeRate::spec_from_u8(9) == ShCodeRate::Rate1_2Complementary,
            ShCodeRate::spec_from_u8(10) == ShCodeRate::Rate2_3Standard,
            ShCodeRate::spec_from_u8(11) == ShCodeRate::Rate2_3Complementary,
            ShCodeRate::Rate1_5Standard.spec_to_u8() == 0,
            ShCodeRate::Rate2_9Standard.spec_to_u8() == 1,
            ShCodeRate::Rate1_4Standard.spec_to_u8() == 2,
            ShCodeRate::Rate2_7Standard.spec_to_u8() == 3,
            ShCodeRate::Rate1_3Standard.spec_to_u8() == 4,
            ShCodeRate::Rate1_3Complementary.spec_to_u8() == 5,
            ShCodeRate::Rate2_5Standard.spec_to_u8() == 6,
            ShCodeRate::Rate2_5Complementary.spec_to_u8() == 7,
            ShCodeRate::Rate1_2Standard.spec_to_u8() == 8,
            ShCodeRate::Rate1_2Complementary.spec_to_u8() == 9,
            ShCodeRate::Rate2_3Standard.spec_to_u8() == 10,
            ShCodeRate::Rate2_3Complementary.spec_to_u8() == 11,
            forall|v: u8| v != 0 && v != 1 && v != 2 && v != 3 && v != 4 && v != 5 && v != 6 && v != 7 && v != 8 && v != 9 && v != 10 && v != 11 ==> #[trigger] ShCodeRate::spec_from_u8(v) == ShCodeRate::Reserved(v),
            forall|v: u8| #[trigger] ShCodeRate::Reserved(v).spec_to_u8() == v,
    {
    }
}

impl ShBandwidth {
    /// The EN 300 468 Table 125 SH OFDM bandwidth codes: each code and the variant it stands for, in literal values.
    pub proof fn lemma_codes()
        ensures
            ShBandwidth::spec_from_u8(0) == ShBandwidth::Mhz8,
            ShBandwidth::spec_from_u8(1) == ShBandwidth::Mhz7,
            ShBandwidth::spec_from_u8(2) == ShBandwidth::Mhz6,
            ShBandwidth::spec_from_u8(3) == ShBandwidth::Mhz5,
            ShBandwidth::spec_from_u8(4) == ShBandwidth::Mhz1_7,
            ShBandwidth::Mhz8.spec_to_u8() == 0,
            ShBandwidth::Mhz7.spec_to_u8() == 1,
            ShBandwidth::Mhz6.spec_to_u8() == 2,
            ShBandwidth::Mhz5.spec_to_u8() == 3,
            ShBandwidth::Mhz1_7.spec_to_u8() == 4,
            forall|v: u8| v != 0 && v != 1 && v != 2 && v != 3 && v != 4 ==> #[trigger] ShBandwidth::spec_from_u8(v) == ShBandwidth::Reserved(v),
            forall|v: u8| #[trigger] ShBandwidth::Reserved(v).spec_to_u8() == v,
    {
    }
}

impl ShConstellationAndHierarchy {
    /// The EN 300 468 SH OFDM constellation_and_hierarchy codes: each code and the variant it stands for, in literal values.
    pub proof fn lemma_codes()
        ensures
            ShConstellationAndHierarchy::spec_from_u8(0) == ShConstellationAndHierarchy::Qpsk,
            ShConstellationAndHierarchy::spec_from_u8(1) == ShConstellationAndHierarchy::Qam16NonHierarchical,
            ShConstellationAndHierarchy::spec_from_u8(2) == ShConstellationAndHierarchy::Qam16Alpha1,
            ShConstellationAndHierarchy::spec_from_u8(3) == ShConstellationAndHierarchy::Qam16Alpha2,
            ShConstellationAndHierarchy::spec_from_u8(4) == ShConstellationAndHierarchy::Qam16Alpha3,
            ShConstellationAndHierarchy::Qpsk.spec_to_u8() == 0,
            ShConstellationAndHierarchy::Qam16NonHierarchical.spec_to_u8() == 1,
            ShConstellationAndHierarchy::Qam16Alpha1.spec_to_u8() == 2,
            ShConstellationAndHierarchy::Qam16Alpha2.spec_to_u8() == 3,
            ShConstellationAndHierarchy::Qam16Alpha3.spec_to_u8() == 4,
            forall|v: u8| v != 0 && v != 1 && v != 2 && v != 3 && v != 4 ==> #[trigger] ShConstellationAndHierarchy::spec_from_u8(v) == ShConstellationAndHierarchy::Reserved(v),
            forall|v: u8| #[trigger] ShConstellationAndHierarchy::Reserved(v).spec_to_u8() == v,
    {
    }
}

impl ShGuardInterval {
    /// The EN 300 468 SH OFDM guard_interval codes: each code and the variant it stands for, in literal values.
    pub proof fn lemma_codes()
        ensures
            ShGuardInterval::spec_from_u8(0) == ShGuardInterval::G1_32,
            ShGuardInterval::spec_from_u8(1) == ShGuardInterval::G1_16,
            ShGuardInterval::spec_from_u8(2) == ShGuardInterval::G1_8,
            ShGuardInterval::spec_from_u8(3) == ShGuardInterval::G1_4,
            ShGuardInterval::G1_32.spec_to_u8() == 0,
            ShGuardInterval::G1_16.spec_to_u8() == 1,
            ShGuardInterval::G1_8.spec_to_u8() == 2,
            ShGuardInterval::G1_4.spec_to_u8() == 3,
            forall|v: u8| v != 0 && v != 1 && v != 2 && v != 3 ==> #[trigger] ShGuardInterval::spec_from_u8(v) == ShGuardInterval::Reserved(v),
            forall|v: u8| #[trigger] ShGuardInterval::Reserved(v).spec_to_u8() == v,
    {
    }
}

impl ShTransmissionMode {
    /// The EN 300 468 SH OFDM transmission_mode codes: each code and the variant it stands for, in literal values.
    pub proof fn lemma_codes()
        ensures
            ShTransmissionMode::spec_from_u8(0) == ShTransmissionMode::Mode1k,
            ShTransmissionMode::spec_from_u8(1) == ShTransmissionMode::Mode2k,
            ShTransmissionMode::spec_from_u8(2) == ShTransmissionMode::Mode4k,
            ShTransmissionMode::spec_from_u8(3) == ShTransmissionMode::Mode8k,
            ShTransmissionMode::Mode1k.spec_to_u8() == 0,
            ShTransmissionMode::Mode2k.spec_to_u8() == 1,
            ShTransmissionMode::Mode4k.spec_to_u8() == 2,
            ShTransmissionMode::Mode8k.spec_to_u8() == 3,
            forall|v: u8| v != 0 && v != 1 && v != 2 && v != 3 ==> #[trigger] ShTransmissionMode::spec_from_u8(v) == ShTransmissionMode::Reserved(v),
            forall|v: u8| #[trigger] ShTransmissionMode::Reserved(v).spec_to_u8() == v,
    {
    }
}

/// The modulation fields of an SH modulation entry, in the literal codes of
/// EN 300 468. A TDM entry (modulation_type bit 0): polarization 0 linear
/// horizontal, 1 linear vertical, 2 circular left, 3 circular right; roll_off 0
/// α=0.35, 1 α=0.25, 2 α=0.15; modulation_mode 0 QPSK, 1 8PSK, 2 16APSK; code_rate
/// 0 1/5 ... 11 2/3 complementary. An OFDM entry (bit 1): bandwidth 0 8 MHz, 1 7 MHz,
/// 2 6 MHz, 3 5 MHz, 4 1.7 MHz; constellation_and_hierarchy 0 QPSK, 1 16-QAM
/// non-hierarchical, 2-4 16-QAM α=1, 2, 4; guard_interval 0 1/32, 1 1/16, 2 1/8,
/// 3 1/4; transmission_mode 0 1k, 1 2k, 2 4k, 3 8k.
pub proof fn lemma_sh_entry_codes(t: Seq<u8>)
    requires
        t.len() >= 3,
    ensures
        (t[0] >> 7u8) & 0x01 == 0 && t[1] >> 6u8 == 0 ==> (ShModulation::spec_parse(t).modulation matches ShModulationMode::Tdm { polarization: x, .. } && x == ShPolarization::LinearHorizontal),
        (t[0] >> 7u8) & 0x01 == 0 && t[1] >> 6u8 == 1 ==> (ShModulation::spec_parse(t).modulation matches ShModulationMode::Tdm { polarization: x, .. } && x == ShPolarization::LinearVertical),
        (t[0] >> 7u8) & 0x01 == 0 && t[1] >> 6u8 == 2 ==> (ShModulation::spec_parse(t).modulation matches ShModulationMode::Tdm { polarization: x, .. } && x == ShPolarization::CircularLeft),
        (t[0] >> 7u8) & 0x01 == 0 && t[1] >> 6u8 == 3 ==> (ShModulation::spec_parse(t).modulation matches ShModulationMode::Tdm { polarization: x, .. } && x == ShPolarization::CircularRight),
        (t[0] >> 7u8) & 0x01 == 0 && t[1] >> 6u8 != 0 && t[1] >> 6u8 != 1 && t[1] >> 6u8 != 2 && t[1] >> 6u8 != 3 ==> (ShModulation::spec_parse(t).modulation matches ShModulationMode::Tdm { polarization: x, .. } && x == ShPolarization::Reserved(t[1] >> 6u8)),
        (t[0] >> 7u8) & 0x01 == 0 && (t[1] >> 4u8) & 0x03 == 0 ==> (ShModulation::spec_parse(t).modulation matches ShModulationMode::Tdm { roll_off: x, .. } && x == ShRollOff::Alpha035),
        (t[0] >> 7u8) & 0x01 == 0 && (t[1] >> 4u8) & 0x03 == 1 ==> (ShModulation::spec_parse(t).modulation matches ShModulationMode::Tdm { roll_off: x, .. } && x == ShRollOff::Alpha025),
        (t[0] >> 7u8) & 0x01 == 0 && (t[1] >> 4u8) & 0x03 == 2 ==> (ShModulation::spec_parse(t).modulation matches ShModulationMode::Tdm { roll_off: x, .. } && x == ShRollOff::Alpha015),
        (t[0] >> 7u8) & 0x01 == 0 && (t[1] >> 4u8) & 0x03 != 0 && (t[1] >> 4u8) & 0x03 != 1 && (t[1] >> 4u8) & 0x03 != 2 ==> (ShModulation::spec_parse(t).modulation matches ShModulationMode::Tdm { roll_off: x, .. } && x == ShRollOff::Reserved((t[1] >> 4u8) & 0x03)),
        (t[0] >> 7u8) & 0x01 == 0 && (t[1] >> 2u8) & 0x03 == 0 ==> (ShModulation::spec_parse(t).modulation matches ShModulationMode::Tdm { modulation_mode: x, .. } && x == ShModulationModeType::Qpsk),
        (t[0] >> 7u8) & 0x01 == 0 && (t[1] >> 2u8) & 0x03 == 1 ==> (ShModulation::spec_parse(t).modulation matches ShModulationMode::Tdm { modulation_mode: x, .. } && x == ShModulationModeType::Psk8),
        (t[0] >> 7u8) & 0x01 == 0 && (t[1] >> 2u8) & 0x03 == 2 ==> (ShModulation::spec_parse(t).modulation matches ShModulationMode::Tdm { modulation_mode: x, .. } && x == ShModulationModeType::Apsk16),
        (t[0] >> 7u8) & 0x01 == 0 && (t[1] >> 2u8) & 0x03 != 0 && (t[1] >> 2u8) & 0x03 != 1 && (t[1] >> 2u8) & 0x03 != 2 ==> (ShModulation::spec_parse(t).modulation matches ShModulationMode::Tdm { modulation_mode: x, .. } && x == ShModulationModeType::Reserved((t[1] >> 2u8) & 0x03)),
        (t[0] >> 7u8) & 0x01 == 0 && ((t[1] & 0x03) << 2u8) | (t[2] >> 6u8) == 0 ==> (ShModulation::spec_parse(t).modulation matches ShModulationMode::Tdm { code_rate: x, .. } && x == ShCodeRate::Rate1_5Standard),
        (t[0] >> 7u8) & 0x01 == 0 && ((t[1] & 0x03) << 2u8) | (t[2] >> 6u8) == 1 ==> (ShModulation::spec_parse(t).modulation matches ShModulationMode::Tdm { code_rate: x, .. } && x == ShCodeRate::Rate2_9Standard),
        (t[0] >> 7u8) & 0x01 == 0 && ((t[1] & 0x03) << 2u8) | (t[2] >> 6u8) == 2 ==> (ShModulation::spec_parse(t).modulation matches ShModulationMode::Tdm { code_rate: x, .. } && x == ShCodeRate::Rate1_4Standard),
        (t[0] >> 7u8) & 0x01 == 0 && ((t[1] & 0x03) << 2u8) | (t[2] >> 6u8) == 3 ==> (ShModulation::spec_parse(t).modulation matches ShModulationMode::Tdm { code_rate: x, .. } && x == ShCodeRate::Rate2_7Standard),
        (t[0] >> 7u8) & 0x01 == 0 && ((t[1] & 0x03) << 2u8) | (t[2] >> 6u8) == 4 ==> (ShModulation::spec_parse(t).modulation matches ShModulationMode::Tdm { code_rate: x, .. } && x == ShCodeRate::Rate1_3Standard),
        (t[0] >> 7u8) & 0x01 == 0 && ((t[1] & 0x03) << 2u8) | (t[2] >> 6u8) == 5 ==> (ShModulation::spec_parse(t).modulation matches ShModulationMode::Tdm { code_rate: x, .. } && x == ShCodeRate::Rate1_3Complementary),
        (t[0] >> 7u8) & 0x01 == 0 && ((t[1] & 0x03) << 2u8) | (t[2] >> 6u8) == 6 ==> (ShModulation::spec_parse(t).modulation matches ShModulationMode::Tdm { code_rate: x, .. } && x == ShCodeRate::Rate2_5Standard),
        (t[0] >> 7u8) & 0x01 == 0 && ((t[1] & 0x03) << 2u8) | (t[2] >> 6u8) == 7 ==> (ShModulation::spec_parse(t).modulation matches ShModulationMode::Tdm { code_rate: x, .. } && x == ShCodeRate::Rate2_5Complementary),
        (t[0] >> 7u8) & 0x01 == 0 && ((t[1] & 0x03) << 2u8) | (t[2] >> 6u8) == 8 ==> (ShModulation::spec_parse(t).modulation matches ShModulationMode::Tdm { code_rate: x, .. } && x == ShCodeRate::Rate1_2Standard),
        (t[0] >> 7u8) & 0x01 == 0 && ((t[1] & 0x03) << 2u8) | (t[2] >> 6u8) == 9 ==> (ShModulation::spec_parse(t).modulation matches ShModulationMode::Tdm { code_rate: x, .. } && x == ShCodeRate::Rate1_2Complementary),
        (t[0] >> 7u8) & 0x01 == 0 && ((t[1] & 0x03) << 2u8) | (t[2] >> 6u8) == 10 ==> (ShModulation::spec_parse(t).modulation matches ShModulationMode::Tdm { code_rate: x, .. } && x == ShCodeRate::Rate2_3Standard),
        (t[0] >> 7u8) & 0x01 == 0 && ((t[1] & 0x03) << 2u8) | (t[2] >> 6u8) == 11 ==> (ShModulation::spec_parse(t).modulation matches ShModulationMode::Tdm { code_rate: x, .. } && x == ShCodeRate::Rate2_3Complementary),
        (t[0] >> 7u8) & 0x01 == 0 && ((t[1] & 0x03) << 2u8) | (t[2] >> 6u8) != 0 && ((t[1] & 0x03) << 2u8) | (t[2] >> 6u8) != 1 && ((t[1] & 0x03) << 2u8) | (t[2] >> 6u8) != 2 && ((t[1] & 0x03) << 2u8) | (t[2] >> 6u8) != 3 && ((t[1] & 0x03) << 2u8) | (t[2] >> 6u8) != 4 && ((t[1] & 0x03) << 2u8) | (t[2] >> 6u8) != 5 && ((t[1] & 0x03) << 2u8) | (t[2] >> 6u8) != 6 && ((t[1] & 0x03) << 2u8) | (t[2] >> 6u8) != 7 && ((t[1] & 0x03) << 2u8) | (t[2] >> 6u8) != 8 && ((t[1] & 0x03) << 2u8) | (t[2] >> 6u8) != 9 && ((t[1] & 0x03) << 2u8) | (t[2] >> 6u8) != 10 && ((t[1] & 0x03) << 2u8) | (t[2] >> 6u8) != 11 ==> (ShModulation::spec_parse(t).modulation matches ShModulationMode::Tdm { code_rate: x, .. } && x == ShCodeRate::Reserved(((t[1] & 0x03) << 2u8) | (t[2] >> 6u8))),
        (t[0] >> 7u8) & 0x01 == 1 && t[1] >> 5u8 == 0 ==> (ShModulation::spec_parse(t).modulation matches ShModulationMode::Ofdm { bandwidth: x, .. } && x == ShBandwidth::Mhz8),
        (t[0] >> 7u8) & 0x01 == 1 && t[1] >> 5u8 == 1 ==> (ShModulation::spec_parse(t).modulation matches ShModulationMode::Ofdm { bandwidth: x, .. } && x == ShBandwidth::Mhz7),
        (t[0] >> 7u8) & 0x01 == 1 && t[1] >> 5u8 == 2 ==> (ShModulation::spec_parse(t).modulation matches ShModulationMode::Ofdm { bandwidth: x, .. } && x == ShBandwidth::Mhz6),
        (t[0] >> 7u8) & 0x01 == 1 && t[1] >> 5u8 == 3 ==> (ShModulation::spec_parse(t).modulation matches ShModulationMode::Ofdm { bandwidth: x, .. } && x == ShBandwidth::Mhz5),
        (t[0] >> 7u8) & 0x01 == 1 && t[1] >> 5u8 == 4 ==> (ShModulation::spec_parse(t).modulation matches ShModulationMode::Ofdm { bandwidth: x, .. } && x == ShBandwidth::Mhz1_7),
        (t[0] >> 7u8) & 0x01 == 1 && t[1] >> 5u8 != 0 && t[1] >> 5u8 != 1 && t[1] >> 5u8 != 2 && t[1] >> 5u8 != 3 && t[1] >> 5u8 != 4 ==> (ShModulation::spec_parse(t).modulation matches ShModulationMode::Ofdm { bandwidth: x, .. } && x == ShBandwidth::Reserved(t[1] >> 5u8)),
        (t[0] >> 7u8) & 0x01 == 1 && (t[1] >> 1u8) & 0x07 == 0 ==> (ShModulation::spec_parse(t).modulation matches ShModulationMode::Ofdm { constellation_and_hierarchy: x, .. } && x == ShConstellationAndHierarchy::Qpsk),
        (t[0] >> 7u8) & 0x01 == 1 && (t[1] >> 1u8) & 0x07 == 1 ==> (ShModulation::spec_parse(t).modulation matches ShModulationMode::Ofdm { constellation_and_hierarchy: x, .. } && x == ShConstellationAndHierarchy::Qam16NonHierarchical),
        (t[0] >> 7u8) & 0x01 == 1 && (t[1] >> 1u8) & 0x07 == 2 ==> (ShModulation::spec_parse(t).modulation matches ShModulationMode::Ofdm { constellation_and_hierarchy: x, .. } && x == ShConstellationAndHierarchy::Qam16Alpha1),
        (t[0] >> 7u8) & 0x01 == 1 && (t[1] >> 1u8) & 0x07 == 3 ==> (ShModulation::spec_parse(t).modulation matches ShModulationMode::Ofdm { constellation_and_hierarchy: x, .. } && x == ShConstellationAndHierarchy::Qam16Alpha2),
        (t[0] >> 7u8) & 0x01 == 1 && (t[1] >> 1u8) & 0x07 == 4 ==> (ShModulation::spec_parse(t).modulation matches ShModulationMode::Ofdm { constellation_and_hierarchy: x, .. } && x == ShConstellationAndHierarchy::Qam16Alpha3),
        (t[0] >> 7u8) & 0x01 == 1 && (t[1] >> 1u8) & 0x07 != 0 && (t[1] >> 1u8) & 0x07 != 1 && (t[1] >> 1u8) & 0x07 != 2 && (t[1] >> 1u8) & 0x07 != 3 && (t[1] >> 1u8) & 0x07 != 4 ==> (ShModulation::spec_parse(t).modulation matches ShModulationMode::Ofdm { constellation_and_hierarchy: x, .. } && x == ShConstellationAndHierarchy::Reserved((t[1] >> 1u8) & 0x07)),
        (t[0] >> 7u8) & 0x01 == 1 && ((t[1] & 0x01) << 3u8) | (t[2] >> 5u8) == 0 ==> (ShModulation::spec_parse(t).modulation matches ShModulationMode::Ofdm { code_rate: x, .. } && x == ShCodeRate::Rate1_5Standard),
        (t[0] >> 7u8) & 0x01 == 1 && ((t[1] & 0x01) << 3u8) | (t[2] >> 5u8) == 1 ==> (ShModulation::spec_parse(t).modulation matches ShModulationMode::Ofdm { code_rate: x, .. } && x == ShCodeRate::Rate2_9Standard),
        (t[0] >> 7u8) & 0x01 == 1 && ((t[1] & 0x01) << 3u8) | (t[2] >> 5u8) == 2 ==> (ShModulation::spec_parse(t).modulation matches ShModulationMode::Ofdm { code_rate: x, .. } && x == ShCodeRate::Rate1_4Standard),
        (t[0] >> 7u8) & 0x01 == 1 && ((t[1] & 0x01) << 3u8) | (t[2] >> 5u8) == 3 ==> (ShModulation::spec_parse(t).modulation matches ShModulationMode::Ofdm { code_rate: x, .. } && x == ShCodeRate::Rate2_7Standard),
        (t[0] >> 7u8) & 0x01 == 1 && ((t[1] & 0x01) << 3u8) | (t[2] >> 5u8) == 4 ==> (ShModulation::spec_parse(t).modulation matches ShModulationMode::Ofdm { code_rate: x, .. } && x == ShCodeRate::Rate1_3Standard),
        (t[0] >> 7u8) & 0x01 == 1 && ((t[1] & 0x01) << 3u8) | (t[2] >> 5u8) == 5 ==> (ShModulation::spec_parse(t).modulation matches ShModulationMode::Ofdm { code_rate: x, .. } && x == ShCodeRate::Rate1_3Complementary),
        (t[0] >> 7u8) & 0x01 == 1 && ((t[1] & 0x01) << 3u8) | (t[2] >> 5u8) == 6 ==> (ShModulation::spec_parse(t).modulation matches ShModulationMode::Ofdm { code_rate: x, .. } && x == ShCodeRate::Rate2_5Standard),
        (t[0] >> 7u8) & 0x01 == 1 && ((t[1] & 0x01) << 3u8) | (t[2] >> 5u8) == 7 ==> (ShModulation::spec_parse(t).modulation matches ShModulationMode::Ofdm { code_rate: x, .. } && x == ShCodeRate::Rate2_5Complementary),
        (t[0] >> 7u8) & 0x01 == 1 && ((t[1] & 0x01) << 3u8) | (t[2] >> 5u8) == 8 ==> (ShModulation::spec_parse(t).modulation matches ShModulationMode::Ofdm { code_rate: x, .. } && x == ShCodeRate::Rate1_2Standard),
        (t[0] >> 7u8) & 0x01 == 1 && ((t[1] & 0x01) << 3u8) | (t[2] >> 5u8) == 9 ==> (ShModulation::spec_parse(t).modulation matches ShModulationMode::Ofdm { code_rate: x, .. } && x == ShCodeRate::Rate1_2Complementary),
        (t[0] >> 7u8) & 0x01 == 1 && ((t[1] & 0x01) << 3u8) | (t[2] >> 5u8) == 10 ==> (ShModulation::spec_parse(t).modulation matches ShModulationMode::Ofdm { code_rate: x, .. } && x == ShCodeRate::Rate2_3Standard),
        (t[0] >> 7u8) & 0x01 == 1 && ((t[1] & 0x01) << 3u8) | (t[2] >> 5u8) == 11 ==> (ShModulation::spec_parse(t).modulation matches ShModulationMode::Ofdm { code_rate: x, .. } && x == ShCodeRate::Rate2_3Complementary),
        (t[0] >> 7u8) & 0x01 == 1 && ((t[1] & 0x01) << 3u8) | (t[2] >> 5u8) != 0 && ((t[1] & 0x01) << 3u8) | (t[2] >> 5u8) != 1 && ((t[1] & 0x01) << 3u8) | (t[2] >> 5u8) != 2 && ((t[1] & 0x01) << 3u8) | (t[2] >> 5u8) != 3 && ((t[1] & 0x01) << 3u8) | (t[2] >> 5u8) != 4 && ((t[1] & 0x01) << 3u8) | (t[2] >> 5u8) != 5 && ((t[1] & 0x01) << 3u8) | (t[2] >> 5u8) != 6 && ((t[1] & 0x01) << 3u8) | (t[2] >> 5u8) != 7 && ((t[1] & 0x01) << 3u8) | (t[2] >> 5u8) != 8 && ((t[1] & 0x01) << 3u8) | (t[2] >> 5u8) != 9 && ((t[1] & 0x01) << 3u8) | (t[2] >> 5u8) != 10 && ((t[1] & 0x01) << 3u8) | (t[2] >> 5u8) != 11 ==> (ShModulation::spec_parse(t).modulation matches ShModulationMode::Ofdm { code_rate: x, .. } && x == ShCodeRate::Reserved(((t[1] & 0x01) << 3u8) | (t[2] >> 5u8))),
        (t[0] >> 7u8) & 0x01 == 1 && (t[2] >> 3u8) & 0x03 == 0 ==> (ShModulation::spec_parse(t).modulation matches ShModulationMode::Ofdm { guard_interval: x, .. } && x == ShGuardInterval::G1_32),
        (t[0] >> 7u8) & 0x01 == 1 && (t[2] >> 3u8) & 0x03 == 1 ==> (ShModulation::spec_parse(t).modulation matches ShModulationMode::Ofdm { guard_interval: x, .. } && x == ShGuardInterval::G1_16),
        (t[0] >> 7u8) & 0x01 == 1 && (t[2] >> 3u8) & 0x03 == 2 ==> (ShModulation::spec_parse(t).modulation matches ShModulationMode::Ofdm { guard_interval: x, .. } && x == ShGuardInterval::G1_8),
        (t[0] >> 7u8) & 0x01 == 1 && (t[2] >> 3u8) & 0x03 == 3 ==> (ShModulation::spec_parse(t).modulation matches ShModulationMode::Ofdm { guard_interval: x, .. } && x == ShGuardInterval::G1_4),
        (t[0] >> 7u8) & 0x01 == 1 && (t[2] >> 3u8) & 0x03 != 0 && (t[2] >> 3u8) & 0x03 != 1 && (t[2] >> 3u8) & 0x03 != 2 && (t[2] >> 3u8) & 0x03 != 3 ==> (ShModulation::spec_parse(t).modulation matches ShModulationMode::Ofdm { guard_interval: x, .. } && x == ShGuardInterval::Reserved((t[2] >> 3u8) & 0x03)),
        (t[0] >> 7u8) & 0x01 == 1 && (t[2] >> 1u8) & 0x03 == 0 ==> (ShModulation::spec_parse(t).modulation matches ShModulationMode::Ofdm { transmission_mode: x, .. } && x == ShTransmissionMode::Mode1k),
        (t[0] >> 7u8) & 0x01 == 1 && (t[2] >> 1u8) & 0x03 == 1 ==> (ShModulation::spec_parse(t).modulation matches ShModulationMode::Ofdm { transmission_mode: x, .. } && x == ShTransmissionMode::Mode2k),
        (t[0] >> 7u8) & 0x01 == 1 && (t[2] >> 1u8) & 0x03 == 2 ==> (ShModulation::spec_parse(t).modulation matches ShModulationMode::Ofdm { transmission_mode: x, .. } && x == ShTransmissionMode::Mode4k),
        (t[0] >> 7u8) & 0x01 == 1 && (t[2] >> 1u8) & 0x03 == 3 ==> (ShModulation::spec_parse(t).modulation matches ShModulationMode::Ofdm { transmission_mode: x, .. } && x == ShTransmissionMode::Mode8k),
        (t[0] >> 7u8) & 0x01 == 1 && (t[2] >> 1u8) & 0x03 != 0 && (t[2] >> 1u8) & 0x03 != 1 && (t[2] >> 1u8) & 0x03 != 2 && (t[2] >> 1u8) & 0x03 != 3 ==> (ShModulation::spec_parse(t).modulation matches ShModulationMode::Ofdm { transmission_mode: x, .. } && x == ShTransmissionMode::Reserved((t[2] >> 1u8) & 0x03)),
{
}

/// The diversity_mode of a parsed SH delivery system body, in the literal codes of
/// EN 300 468 (high nibble of the first byte): 0 no diversity, 8 paTS only, 13
/// FEC at link, 14 FEC at physical layer, 15 FEC at physical layer and link.
pub proof fn lemma_sh_diversity_codes(s: Seq<u8>, d: ShDeliverySystem)
    requires
        d.decodes(s),
    ensures
        s[0] >> 4u8 == 0 ==> d.diversity_mode == ShDiversityMode::NoDiversity,
        s[0] >> 4u8 == 8 ==> d.diversity_mode == ShDiversityMode::PaTsOnly,
        s[0] >> 4u8 == 13 ==> d.diversity_mode == ShDiversityMode::FecAtLink,
        s[0] >> 4u8 == 14 ==> d.diversity_mode == ShDiversityMode::FecAtPhy,
        s[0] >> 4u8 == 15 ==> d.diversity_mode == ShDiversityMode::FecAtPhyAndLink,
        s[0] >> 4u8 != 0 && s[0] >> 4u8 != 8 && s[0] >> 4u8 != 13 && s[0] >> 4u8 != 14 && s[0] >> 4u8 != 15 ==> d.diversity_mode == ShDiversityMode::Reserved(s[0] >> 4u8),
{
}

/// The kind of an SH modulation entry, by the literal flag bits of EN 300 468:
/// modulation_type (bit 7) 0 TDM, 1 OFDM; interleaver_presence (bit 6) and
/// interleaver_type (bit 5) 0 the 4-byte type-0 block, 1 the 1-byte type-1 block,
/// so an entry is 3 bytes without an interleaver, 7 with type 0 and 4 with type 1.
pub proof fn lemma_sh_entry_kind_codes(t: Seq<u8>)
    requires
        t.len() >= 3,
    ensures
        (t[0] >> 7u8) & 0x01 == 0 ==> ShModulation::spec_parse(t).modulation is Tdm,
        (t[0] >> 7u8) & 0x01 == 1 ==> ShModulation::spec_parse(t).modulation is Ofdm,
        (t[0] >> 6u8) & 0x01 == 0 ==> ShModulation::spec_parse(t).interleaver is None,
        (t[0] >> 6u8) & 0x01 == 1 && (t[0] >> 5u8) & 0x01 == 0 ==> (ShModulation::spec_parse(t).interleaver matches Some(i) && i is Type0),
        (t[0] >> 6u8) & 0x01 == 1 && (t[0] >> 5u8) & 0x01 == 1 ==> (ShModulation::spec_parse(t).interleaver matches Some(i) && i is Type1),
        (t[0] >> 6u8) & 0x01 == 0 ==> sh_entry_len(t) == 3,
        (t[0] >> 6u8) & 0x01 == 1 && (t[0] >> 5u8) & 0x01 == 0 ==> sh_entry_len(t) == 7,
        (t[0] >> 6u8) & 0x01 == 1 && (t[0] >> 5u8) & 0x01 == 1 ==> sh_entry_len(t) == 4,
{
}

} // verus!
