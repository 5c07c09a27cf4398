//! S2Xv2 Satellite Delivery System Descriptor — ETSI EN 300 468 §6.4.6.5.3
//! (tag_extension 0x24).
//!
//! Body layout: Table 144a (outer shell) and Table 144b
//! (S2Xv2_satellite_delivery_system_info()); mode coding: Table 144c.
//!
//! A fixed 18-byte core is followed by conditional blocks gated on S2Xv2_mode,
//! multiple_input_stream_flag, channel_bond and sub-flags. The trailing loop
//! of reserved_zero_future_use bytes is kept verbatim in `reserved_tail`.

use super::ExtensionBodyDef;
use super::s2x_satellite_delivery_system::{index_bytes, index_of, lemma_s2x_index_bits};
use crate::descriptors::satellite_delivery_system::{Polarization, RollOff};
use crate::descriptors::emitted_sized;
use crate::error::{is_too_short, sat, Error};
use crate::wire::{
    be32, bit, concat_map, copy_to_front, lemma_be24_of_bytes, lemma_be32_of_bytes, lemma_bytes_of_be24, lemma_bytes_of_be32,
    lemma_concat_map_blocks, lemma_concat_map_fixed, lemma_concat_map_push, be24, push_bytes, push_u24,
    push_u32, push_u8, read_u32, u24_bytes, u32_bytes,
};
use vstd::prelude::*;

verus! {

impl ExtensionBodyDef for S2Xv2SatelliteDeliverySystem<'_> {
    const TAG_EXTENSION: u8 = 0x24;
    const NAME: &'static str = "S2XV2_SATELLITE_DELIVERY_SYSTEM";
}

/// The fixed core: delivery_system_id(4) + three packed bytes + satellite_id(3)
/// + frequency(4) + symbol_rate(4).
const S2XV2_CORE_LEN: usize = 18;

/// Scrambling block: reserved(6 bits) + scrambling_sequence_index(18 bits).
const S2XV2_SCRAMBLING_LEN: usize = 3;

/// Superframe block without beamhopping: 4 + 3 + 1 bytes.
const S2XV2_SUPERFRAME_MIN_LEN: usize = 8;

/// Superframe block with beamhopping: 8 + 4 bytes.
const S2XV2_SUPERFRAME_BH_LEN: usize = 12;

/// S2Xv2 mode — ETSI EN 300 468 Table 144c.
#[derive(Debug, Clone, Copy, PartialEq, Eq)]
pub enum S2Xv2Mode {
    /// Reserved for future use (0).
    Reserved0,
    /// S2X (1).
    S2X,
    /// S2X + time slicing (2).
    S2XTimeSlicing,
    /// Reserved for future use (3).
    Reserved3,
    /// S2X superframe (Annex E of ETSI EN 302 307-2) (4).
    S2XSuperframe,
    /// S2X superframe + timeslicing (5).
    S2XSuperframeTimeSlicing,
    /// Reserved / future use (6–15).
    Reserved(u8),
}

impl S2Xv2Mode {
    /// `to_u8` gives back the raw value that `from_u8` read.
    pub proof fn lemma_from_to(v: u8)
        ensures
            Self::spec_from_u8(v).spec_to_u8() == v,
    {
    }

    /// `from_u8` gives back every well-formed variant from its raw value.
    pub proof fn lemma_to_from(self)
        requires
            self.wf(),
        ensures
            Self::spec_from_u8(self.spec_to_u8()) == self,
    {
    }

    /// The variant for a raw value.
    pub open spec fn spec_from_u8(v: u8) -> Self {
        if v == 0 {
            S2Xv2Mode::Reserved0
        } else if v == 1 {
            S2Xv2Mode::S2X
        } else if v == 2 {
            S2Xv2Mode::S2XTimeSlicing
        } else if v == 3 {
            S2Xv2Mode::Reserved3
        } else if v == 4 {
            S2Xv2Mode::S2XSuperframe
        } else if v == 5 {
            S2Xv2Mode::S2XSuperframeTimeSlicing
        } else {
            S2Xv2Mode::Reserved(v)
        }
    }

    /// The raw value of a variant.
    pub open spec fn spec_to_u8(self) -> u8 {
        match self {
            S2Xv2Mode::Reserved0 => 0,
            S2Xv2Mode::S2X => 1,
            S2Xv2Mode::S2XTimeSlicing => 2,
            S2Xv2Mode::Reserved3 => 3,
            S2Xv2Mode::S2XSuperframe => 4,
            S2Xv2Mode::S2XSuperframeTimeSlicing => 5,
            S2Xv2Mode::Reserved(v) => v,
        }
    }

    /// A `Reserved` value is not one of the named codes.
    pub open spec fn wf(self) -> bool {
        match self {
            S2Xv2Mode::Reserved(v) => v > 5,
            _ => true,
        }
    }

    /// Modes 1 and 2 carry scrambling_sequence_selector.
    pub open spec fn spec_has_scrambling_selector(self) -> bool {
        self == S2Xv2Mode::S2X || self == S2Xv2Mode::S2XTimeSlicing
    }

    /// Modes 2 and 5 carry timeslice_number.
    pub open spec fn spec_has_timeslice(self) -> bool {
        self == S2Xv2Mode::S2XTimeSlicing || self == S2Xv2Mode::S2XSuperframeTimeSlicing
    }

    /// Modes 4 and 5 carry the superframe block.
    pub open spec fn spec_has_superframe(self) -> bool {
        self == S2Xv2Mode::S2XSuperframe || self == S2Xv2Mode::S2XSuperframeTimeSlicing
    }

    /// Constructs from a raw value; every value maps to a variant.
    pub fn from_u8(v: u8) -> (r: Self)
        ensures
            r == Self::spec_from_u8(v),
    {
        if v == 0 {
            S2Xv2Mode::Reserved0
        } else if v == 1 {
            S2Xv2Mode::S2X
        } else if v == 2 {
            S2Xv2Mode::S2XTimeSlicing
        } else if v == 3 {
            S2Xv2Mode::Reserved3
        } else if v == 4 {
            S2Xv2Mode::S2XSuperframe
        } else if v == 5 {
            S2Xv2Mode::S2XSuperframeTimeSlicing
        } else {
            S2Xv2Mode::Reserved(v)
        }
    }

    /// Inverse of `from_u8`; `Reserved` emits its stored value.
    pub fn to_u8(self) -> (r: u8)
        ensures
            r == self.spec_to_u8(),
    {
        match self {
            S2Xv2Mode::Reserved0 => 0,
            S2Xv2Mode::S2X => 1,
            S2Xv2Mode::S2XTimeSlicing => 2,
            S2Xv2Mode::Reserved3 => 3,
            S2Xv2Mode::S2XSuperframe => 4,
            S2Xv2Mode::S2XSuperframeTimeSlicing => 5,
            S2Xv2Mode::Reserved(v) => v,
        }
    }

    /// Human-readable spec name per Table 144c.
    pub fn name(self) -> (r: &'static str)
        ensures
            r == (match self {
                S2Xv2Mode::Reserved0 => "reserved for future use",
                S2Xv2Mode::S2X => "S2X",
                S2Xv2Mode::S2XTimeSlicing => "S2X + time slicing",
                S2Xv2Mode::Reserved3 => "reserved for future use",
                S2Xv2Mode::S2XSuperframe => "S2X superframe",
                S2Xv2Mode::S2XSuperframeTimeSlicing => "S2X superframe + timeslicing",
                S2Xv2Mode::Reserved(_) => "reserved",
            }),
    {
        match self {
            S2Xv2Mode::Reserved0 => "reserved for future use",
            S2Xv2Mode::S2X => "S2X",
            S2Xv2Mode::S2XTimeSlicing => "S2X + time slicing",
            S2Xv2Mode::Reserved3 => "reserved for future use",
            S2Xv2Mode::S2XSuperframe => "S2X superframe",
            S2Xv2Mode::S2XSuperframeTimeSlicing => "S2X superframe + timeslicing",
            S2Xv2Mode::Reserved(_) => "reserved",
        }
    }

    /// True for modes 1 and 2, where scrambling_sequence_selector applies.
    pub fn has_scrambling_selector(self) -> (r: bool)
        ensures
            r == self.spec_has_scrambling_selector(),
    {
        match self {
            S2Xv2Mode::S2X | S2Xv2Mode::S2XTimeSlicing => true,
            _ => false,
        }
    }

    /// True for modes 2 and 5, where timeslice_number is present.
    pub fn has_timeslice(self) -> (r: bool)
        ensures
            r == self.spec_has_timeslice(),
    {
        match self {
            S2Xv2Mode::S2XTimeSlicing | S2Xv2Mode::S2XSuperframeTimeSlicing => true,
            _ => false,
        }
    }

    /// True for modes 4 and 5, where the superframe block is present.
    pub fn has_superframe(self) -> (r: bool)
        ensures
            r == self.spec_has_superframe(),
    {
        match self {
            S2Xv2Mode::S2XSuperframe | S2Xv2Mode::S2XSuperframeTimeSlicing => true,
            _ => false,
        }
    }
}

/// Superframe block present in S2Xv2_mode 4 and 5 (Table 144b).
#[derive(Debug, Clone, PartialEq, Eq)]
pub struct S2Xv2Superframe {
    /// SOSF_WH_sequence_number (8 bits).
    pub sosf_wh_sequence_number: u8,
    /// SFFI_selector (1 bit) — gates `sffi`.
    pub sffi_selector: bool,
    /// beam_hopping_time_plan_selector (1 bit) — gates `beamhopping_time_plan_id`.
    pub beam_hopping_time_plan_selector: bool,
    /// reference_scrambling_index (20 bits).
    pub reference_scrambling_index: u32,
    /// SFFI (4 bits), present iff `sffi_selector`.
    pub sffi: Option<u8>,
    /// payload_scrambling_index (20 bits).
    pub payload_scrambling_index: u32,
    /// beamhopping_time_plan_id (32 bits), present iff `beam_hopping_time_plan_selector`.
    pub beamhopping_time_plan_id: Option<u32>,
    /// superframe_pilots_WH_sequence_number (5 bits) — `[7:3]` of the final byte.
    pub superframe_pilots_wh_sequence_number: u8,
    /// postamble_PLI (3 bits) — `[2:0]` of the final byte.
    pub postamble_pli: u8,
}

/// A 20-bit value read from a nibble and two bytes.
pub open spec fn read20(hi: u8, b1: u8, b2: u8) -> u32 {
    (((hi & 0x0F) as u32) << 16u32) | ((b1 as u32) << 8u32) | (b2 as u32)
}

proof fn lemma_sf_bits(a: u8, b: u8, c: u8, d: u8, v: u32, w: u32, s: u8, t: u8, p: u8, q: u8)
    by (bit_vector)
    requires
        s <= 1,
        t <= 1,
    ensures
        v < 0x10_0000 ==> (((((((s << 7u8) | (t << 6u8) | (((v >> 16u32) as u8) & 0x0F)) & 0x0F) as u32) << 16u32)
            | ((((v >> 8u32) as u8) as u32) << 8u32) | ((v as u8) as u32)) == v),
        ((((s << 7u8) | (t << 6u8) | (((v >> 16u32) as u8) & 0x0F)) & 0x80) != 0) == (s == 1),
        ((((s << 7u8) | (t << 6u8) | (((v >> 16u32) as u8) & 0x0F)) & 0x40) != 0) == (t == 1),
        w < 0x10_0000 ==> (((((((p & 0x0F) << 4u8) | (((w >> 16u32) as u8) & 0x0F)) & 0x0F) as u32) << 16u32)
            | ((((w >> 8u32) as u8) as u32) << 8u32) | ((w as u8) as u32)) == w,
        p < 16 ==> (((p & 0x0F) << 4u8) | (((w >> 16u32) as u8) & 0x0F)) >> 4u8 == p,
        p < 32 && q < 8 ==> ((((p & 0x1F) << 3u8) | (q & 0x07)) >> 3u8) & 0x1F == p,
        p < 32 && q < 8 ==> (((p & 0x1F) << 3u8) | (q & 0x07)) & 0x07 == q,
        a & 0x30 == 0 ==> ({
            let x = (((a & 0x0F) as u32) << 16u32) | ((b as u32) << 8u32) | (c as u32);
            &&& ((if a & 0x80 != 0 { 1u8 } else { 0u8 }) << 7u8) | ((if a & 0x40 != 0 { 1u8 } else { 0u8 })
                << 6u8) | (((x >> 16u32) as u8) & 0x0F) == a
            &&& (x >> 8u32) as u8 == b
            &&& x as u8 == c
        }),
        (((a & 0x0F) as u32) << 16u32) | ((b as u32) << 8u32) | (c as u32) < 0x10_0000,
        ({
            let x = (((d & 0x0F) as u32) << 16u32) | ((b as u32) << 8u32) | (c as u32);
            &&& ((((d >> 4u8) & 0x0F) << 4u8) | (((x >> 16u32) as u8) & 0x0F)) == d
            &&& (x >> 8u32) as u8 == b
            &&& x as u8 == c
        }),
        d >> 4u8 < 16,
        (((d >> 3u8) & 0x1F) & 0x1F) << 3u8 | ((d & 0x07) & 0x07) == d,
        (d >> 3u8) & 0x1F < 32,
        d & 0x07 < 8,
{
}

impl S2Xv2Superframe {
    /// `self` is what parsing the superframe bytes `t` yields.
    pub open spec fn decodes(&self, t: Seq<u8>) -> bool {
        let bh = t[1] & 0x40 != 0;
        let last = if bh {
            t[11]
        } else {
            t[7]
        };
        &&& self.sosf_wh_sequence_number == t[0]
        &&& self.sffi_selector == (t[1] & 0x80 != 0)
        &&& self.beam_hopping_time_plan_selector == bh
        &&& self.reference_scrambling_index == read20(t[1], t[2], t[3])
        &&& self.sffi == if t[1] & 0x80 != 0 {
            Some(t[4] >> 4u8)
        } else {
            None
        }
        &&& self.payload_scrambling_index == read20(t[4], t[5], t[6])
        &&& self.beamhopping_time_plan_id == if bh {
            Some(be32(t, 7) as u32)
        } else {
            None
        }
        &&& self.superframe_pilots_wh_sequence_number == (last >> 3u8) & 0x1F
        &&& self.postamble_pli == last & 0x07
    }

    /// The superframe bytes written by serialization; the beamhopping id is
    /// written exactly when it is present (whatever its selector says).
    pub open spec fn wire(&self) -> Seq<u8> {
        let r = self.reference_scrambling_index;
        let p = self.payload_scrambling_index;
        seq![
            self.sosf_wh_sequence_number,
            (bit(self.sffi_selector) << 7u8) | (bit(self.beam_hopping_time_plan_selector) << 6u8) | (((r
                >> 16u32) as u8) & 0x0F),
            (r >> 8u32) as u8,
            r as u8,
            ((self.sffi.unwrap_or(0) & 0x0F) << 4u8) | (((p >> 16u32) as u8) & 0x0F),
            (p >> 8u32) as u8,
            p as u8,
        ] + (match self.beamhopping_time_plan_id {
            Some(id) => u32_bytes(id),
            None => Seq::empty(),
        }) + seq![((self.superframe_pilots_wh_sequence_number & 0x1F) << 3u8) | (self.postamble_pli & 0x07)]
    }

    /// Fields fit their widths and optional fields match their selectors.
    pub open spec fn wf(&self) -> bool {
        &&& self.reference_scrambling_index < 0x10_0000
        &&& self.payload_scrambling_index < 0x10_0000
        &&& (self.sffi is Some) == self.sffi_selector
        &&& self.sffi.unwrap_or(0) < 16
        &&& (self.beamhopping_time_plan_id is Some) == self.beam_hopping_time_plan_selector
        &&& self.superframe_pilots_wh_sequence_number < 32
        &&& self.postamble_pli < 8
    }

    /// The reserved bits of the block are zero.
    pub open spec fn canonical(t: Seq<u8>) -> bool {
        t[1] & 0x30 == 0 && (t[1] & 0x80 == 0 ==> t[4] >> 4u8 == 0)
    }

    /// The length the block is sized to: it counts the beamhopping id when
    /// its selector is set.
    pub open spec fn sized_len(&self) -> int {
        if self.beam_hopping_time_plan_selector {
            12
        } else {
            8
        }
    }

    /// Number of bytes that serialization writes.
    pub fn written_len(&self) -> (n: usize)
        ensures
            n == self.wire().len(),
    {
        if self.beamhopping_time_plan_id.is_some() {
            S2XV2_SUPERFRAME_BH_LEN
        } else {
            S2XV2_SUPERFRAME_MIN_LEN
        }
    }

    /// Wire length in bytes, as the selector sizes it.
    pub fn serialized_len(&self) -> (n: usize)
        ensures
            n == self.sized_len(),
    {
        if self.beam_hopping_time_plan_selector {
            S2XV2_SUPERFRAME_BH_LEN
        } else {
            S2XV2_SUPERFRAME_MIN_LEN
        }
    }

    /// Appends the superframe bytes to `out`.
    fn write_to(&self, out: &mut Vec<u8>)
        ensures
            final(out)@ == old(out)@ + self.wire(),
    {
        let r = self.reference_scrambling_index;
        let p = self.payload_scrambling_index;
        let s: u8 = if self.sffi_selector {
            1
        } else {
            0
        };
        let b: u8 = if self.beam_hopping_time_plan_selector {
            1
        } else {
            0
        };
        push_u8(out, self.sosf_wh_sequence_number);
        push_u8(out, (s << 7u8) | (b << 6u8) | (((r >> 16u32) as u8) & 0x0F));
        push_u8(out, (r >> 8u32) as u8);
        push_u8(out, r as u8);
        let sffi: u8 = match self.sffi {
            Some(v) => v,
            None => 0,
        };
        push_u8(out, ((sffi & 0x0F) << 4u8) | (((p >> 16u32) as u8) & 0x0F));
        push_u8(out, (p >> 8u32) as u8);
        push_u8(out, p as u8);
        match self.beamhopping_time_plan_id {
            Some(id) => push_u32(out, id),
            None => {},
        }
        push_u8(out, ((self.superframe_pilots_wh_sequence_number & 0x1F) << 3u8) | (self.postamble_pli & 0x07));
        assert(out@ =~= old(out)@ + self.wire());
    }
}

/// The four bytes of a secondary delivery system id.
pub open spec fn id_wire() -> spec_fn(u32) -> Seq<u8> {
    |v: u32| u32_bytes(v)
}

/// S2Xv2_satellite_delivery_system body (Tables 144a–144b).
#[derive(Debug, Clone, PartialEq, Eq)]
pub struct S2Xv2SatelliteDeliverySystem<'a> {
    /// delivery_system_id (32 bits).
    pub delivery_system_id: u32,
    /// S2Xv2_mode (4 bits) — Table 144c.
    pub s2xv2_mode: S2Xv2Mode,
    /// multiple_input_stream_flag (1 bit).
    pub multiple_input_stream_flag: bool,
    /// roll_off (3 bits) — Table 144.
    pub roll_off: RollOff,
    /// NCR_reference (1 bit) — Table 144c1.
    pub ncr_reference: bool,
    /// NCR_version (1 bit).
    pub ncr_version: bool,
    /// channel_bond (2 bits).
    pub channel_bond: u8,
    /// polarization (2 bits).
    pub polarization: Polarization,
    /// scrambling_sequence_selector (1 bit), present iff the mode is 1 or 2;
    /// `None` means the bit was reserved_zero_future_use.
    pub scrambling_sequence_selector: Option<bool>,
    /// TS_GS_S2X_mode (2 bits) — Table 143.
    pub ts_gs_s2x_mode: u8,
    /// receiver_profiles (5 bits).
    pub receiver_profiles: u8,
    /// satellite_id (24 bits).
    pub satellite_id: u32,
    /// frequency (32 bits).
    pub frequency: u32,
    /// symbol_rate (32 bits).
    pub symbol_rate: u32,
    /// input_stream_identifier (8 bits), present iff `multiple_input_stream_flag`.
    pub input_stream_identifier: Option<u8>,
    /// scrambling_sequence_index (18 bits), present iff the selector is set.
    pub scrambling_sequence_index: Option<u32>,
    /// timeslice_number (8 bits), present iff the mode is 2 or 5.
    pub timeslice_number: Option<u8>,
    /// Secondary delivery system ids of the channel_bond loop (one or two),
    /// present iff `channel_bond == 1`.
    pub secondary_delivery_system_ids: Vec<u32>,
    /// Superframe block, present iff the mode is 4 or 5.
    pub superframe: Option<S2Xv2Superframe>,
    /// Trailing reserved_zero_future_use bytes, verbatim.
    pub reserved_tail: &'a [u8],
}

proof fn lemma_core_bits(b4: u8, b5: u8, b6: u8, m: u8, f: u8, r: u8, x: u8, y: u8, c: u8, p: u8, s: u8, g: u8, q: u8)
    by (bit_vector)
    requires
        f <= 1,
        x <= 1,
        y <= 1,
        s <= 1,
    ensures
        m < 16 && r < 8 ==> ({
            let v = ((m & 0x0F) << 4u8) | (f << 3u8) | (r & 0x07);
            &&& v >> 4u8 == m
            &&& (v & 0x08 != 0) == (f == 1)
            &&& v & 0x07 == r
        }),
        c < 4 && p < 4 ==> ({
            let v = (x << 5u8) | (y << 4u8) | ((c & 0x03) << 2u8) | (p & 0x03);
            &&& (v & 0x20 != 0) == (x == 1)
            &&& (v & 0x10 != 0) == (y == 1)
            &&& (v >> 2u8) & 0x03 == c
            &&& v & 0x03 == p
        }),
        g < 4 && q < 32 ==> ({
            let v = (s << 7u8) | ((g & 0x03) << 5u8) | (q & 0x1F);
            &&& (v >> 7u8) & 0x01 == s
            &&& (v >> 5u8) & 0x03 == g
            &&& v & 0x1F == q
        }),
        (((b4 >> 4u8) & 0x0F) << 4u8) | ((if b4 & 0x08 != 0 { 1u8 } else { 0u8 }) << 3u8) | ((b4 & 0x07) & 0x07)
            == b4,
        b4 >> 4u8 < 16,
        b4 & 0x07 < 8,
        b5 & 0xC0 == 0 ==> ((if b5 & 0x20 != 0 { 1u8 } else { 0u8 }) << 5u8) | ((if b5 & 0x10 != 0 { 1u8 } else {
            0u8
        }) << 4u8) | ((((b5 >> 2u8) & 0x03) & 0x03) << 2u8) | ((b5 & 0x03) & 0x03) == b5,
        (b5 >> 2u8) & 0x03 < 4,
        b5 & 0x03 < 4,
        ((((b6 >> 7u8) & 0x01) << 7u8) | ((((b6 >> 5u8) & 0x03) & 0x03) << 5u8) | ((b6 & 0x1F) & 0x1F)) == b6,
        (b6 >> 7u8) & 0x01 <= 1,
        (b6 >> 5u8) & 0x03 < 4,
        b6 & 0x1F < 32,
        b6 & 0x80 == 0 ==> (b6 >> 7u8) & 0x01 == 0,
        (b6 >> 7u8) & 0x01 == 0 ==> b6 & 0x80 == 0,
        c & 0xFE == 0 ==> ((((c & 0x01) as usize) + 1) - 1) as u8 & 0x01 == c,
        (c & 0x01) as usize + 1 <= 2,
{
}

/// The length of the superframe block at the front of `t`.
pub open spec fn sf_len_of(t: Seq<u8>) -> int {
    if t[1] & 0x40 != 0 {
        12
    } else {
        8
    }
}

/// Reads the superframe block at `sel[f..]`, which holds it completely.
fn read_superframe(sel: &[u8], f: usize) -> (sf: S2Xv2Superframe)
    requires
        f + 8 <= sel.len(),
        f + sf_len_of(sel@.subrange(f as int, sel@.len() as int)) <= sel.len(),
    ensures
        sf.decodes(sel@.subrange(f as int, f + sf_len_of(sel@.subrange(f as int, sel@.len() as int)))),
        sf.wire().len() == sf_len_of(sel@.subrange(f as int, sel@.len() as int)),
{
    let ghost t = sel@.subrange(f as int, sel@.len() as int);
    let sb1 = sel[f + 1];
    assert(t[1] == sb1);
    let sffi_selector = (sb1 & 0x80) != 0;
    let beam_hopping_time_plan_selector = (sb1 & 0x40) != 0;
    let reference_scrambling_index = (((sb1 & 0x0F) as u32) << 16u32) | ((sel[f + 2] as u32) << 8u32) | (sel[f
        + 3] as u32);
    let b4s = sel[f + 4];
    let sffi = if sffi_selector {
        Some(b4s >> 4u8)
    } else {
        None
    };
    let payload_scrambling_index = (((b4s & 0x0F) as u32) << 16u32) | ((sel[f + 5] as u32) << 8u32) | (sel[f
        + 6] as u32);
    let mut pos = f + 7;
    let beamhopping_time_plan_id = if beam_hopping_time_plan_selector {
        let id = read_u32(sel, pos);
        pos = pos + 4;
        Some(id)
    } else {
        None
    };
    let last = sel[pos];
    let sf = S2Xv2Superframe {
        sosf_wh_sequence_number: sel[f],
        sffi_selector,
        beam_hopping_time_plan_selector,
        reference_scrambling_index,
        sffi,
        payload_scrambling_index,
        beamhopping_time_plan_id,
        superframe_pilots_wh_sequence_number: (last >> 3u8) & 0x1F,
        postamble_pli: last & 0x07,
    };
    assert(sf.decodes(t.subrange(0, sf_len_of(t)))) by {
        let u = t.subrange(0, sf_len_of(t));
        assert(u[1] == sb1);
        assert(u[4] == b4s);
        if beam_hopping_time_plan_selector {
            assert(be32(u, 7) == be32(sel@, f + 7));
            assert(u[11] == last);
        } else {
            assert(u[7] == last);
        }
    }
    assert(sel@.subrange(f as int, f + sf_len_of(t)) =~= t.subrange(0, sf_len_of(t)));
    sf
}

/// Reads the channel-bond block at `sel[b..]`: a count byte and one or two ids.
fn read_bond(sel: &[u8], b: usize) -> (ids: Vec<u32>)
    requires
        b < sel.len(),
        b + 1 + 4 * ((sel@[b as int] & 0x01) + 1) <= sel.len(),
    ensures
        ids@.len() == (sel@[b as int] & 0x01) + 1,
        forall|k: int| 0 <= k < ids@.len() ==> #[trigger] ids@[k] == be32(sel@, b + 1 + 4 * k),
{
    let bond_byte = sel[b];
    assert(bond_byte & 0x01 <= 1) by (bit_vector);
    let n: usize = (bond_byte & 0x01) as usize + 1;
    let mut pos = b + 1;
    let mut ids: Vec<u32> = Vec::new();
    let mut k: usize = 0;
    while k < n
        invariant
            b + 1 + 4 * n <= sel.len(),
            n == (sel@[b as int] & 0x01) + 1,
            1 <= n <= 2,
            k <= n,
            pos == b + 1 + 4 * k,
            ids@.len() == k,
            forall|j: int| 0 <= j < k ==> #[trigger] ids@[j] == be32(sel@, b + 1 + 4 * j),
        decreases n - k,
    {
        let id = read_u32(sel, pos);
        ids.push(id);
        pos = pos + 4;
        k = k + 1;
    }
    ids
}

impl<'a> S2Xv2SatelliteDeliverySystem<'a> {
    /// The mode of the selector bytes `s`.
    pub open spec fn mode(s: Seq<u8>) -> S2Xv2Mode {
        S2Xv2Mode::spec_from_u8(s[4] >> 4u8)
    }

    /// multiple_input_stream_flag.
    pub open spec fn has_isi(s: Seq<u8>) -> bool {
        s[4] & 0x08 != 0
    }

    /// The scrambling block is present.
    pub open spec fn has_index(s: Seq<u8>) -> bool {
        Self::mode(s).spec_has_scrambling_selector() && (s[6] >> 7u8) & 0x01 != 0
    }

    /// channel_bond is 1.
    pub open spec fn has_bond(s: Seq<u8>) -> bool {
        (s[5] >> 2u8) & 0x03 == 1
    }

    /// Offset of the scrambling block.
    pub open spec fn index_at(s: Seq<u8>) -> int {
        18 + if Self::has_isi(s) {
            1int
        } else {
            0int
        }
    }

    /// Offset of timeslice_number.
    pub open spec fn ts_at(s: Seq<u8>) -> int {
        Self::index_at(s) + if Self::has_index(s) {
            3int
        } else {
            0int
        }
    }

    /// Offset of the channel-bond block.
    pub open spec fn bond_at(s: Seq<u8>) -> int {
        Self::ts_at(s) + if Self::mode(s).spec_has_timeslice() {
            1int
        } else {
            0int
        }
    }

    /// Number of secondary ids of the channel-bond block.
    pub open spec fn bond_count(s: Seq<u8>) -> int {
        (s[Self::bond_at(s)] & 0x01) + 1
    }

    /// Offset of the superframe block.
    pub open spec fn sf_at(s: Seq<u8>) -> int {
        Self::bond_at(s) + if Self::has_bond(s) {
            1 + 4 * Self::bond_count(s)
        } else {
            0int
        }
    }

    /// Length of the superframe block.
    pub open spec fn sf_len(s: Seq<u8>) -> int {
        if Self::mode(s).spec_has_superframe() {
            if s[Self::sf_at(s) + 1] & 0x40 != 0 {
                12int
            } else {
                8int
            }
        } else {
            0int
        }
    }

    /// Offset of the reserved tail.
    pub open spec fn tail_at(s: Seq<u8>) -> int {
        Self::sf_at(s) + Self::sf_len(s)
    }

    /// Parsing succeeds on exactly these selector bytes.
    pub open spec fn sel_ok(s: Seq<u8>) -> bool {
        &&& s.len() >= 18
        &&& s.len() >= Self::ts_at(s)
        &&& s.len() >= Self::bond_at(s)
        &&& Self::has_bond(s) ==> s.len() > Self::bond_at(s) && s.len() >= Self::sf_at(s)
        &&& Self::mode(s).spec_has_superframe() ==> s.len() >= Self::sf_at(s) + 8 && s.len() >= Self::tail_at(s)
    }

    /// The error reported for selector bytes that do not parse: the first
    /// missing field, in wire order.
    pub open spec fn sel_error(e: Error, s: Seq<u8>) -> bool {
        let n = s.len() as int;
        let b = Self::bond_at(s);
        let f = Self::sf_at(s);
        if n < 18 {
            is_too_short(e, 18, n)
        } else if n < Self::index_at(s) {
            is_too_short(e, 19, n)
        } else if n < Self::ts_at(s) {
            is_too_short(e, sat(Self::index_at(s) + 3), n)
        } else if n < b {
            is_too_short(e, sat(b), n)
        } else if Self::has_bond(s) && n <= b {
            is_too_short(e, sat(b + 1), n)
        } else if Self::has_bond(s) && n < b + 5 {
            is_too_short(e, sat(b + 5), n)
        } else if Self::has_bond(s) && n < f {
            is_too_short(e, sat(f), n)
        } else if n < f + 8 {
            is_too_short(e, sat(f + 8), n)
        } else if s[f + 1] & 0x40 != 0 && n < f + 11 {
            is_too_short(e, sat(f + 11), n)
        } else {
            is_too_short(e, sat(Self::tail_at(s)), n)
        }
    }

    /// The reserved bits are zero.
    pub open spec fn canonical(s: Seq<u8>) -> bool {
        &&& s[5] & 0xC0 == 0
        &&& !Self::mode(s).spec_has_scrambling_selector() ==> s[6] & 0x80 == 0
        &&& Self::has_index(s) ==> s[Self::index_at(s)] & 0xFC == 0
        &&& Self::has_bond(s) ==> s[Self::bond_at(s)] & 0xFE == 0
        &&& Self::mode(s).spec_has_superframe() ==> S2Xv2Superframe::canonical(
            s.subrange(Self::sf_at(s), Self::tail_at(s)),
        )
    }

    /// The core fields are what the first 18 selector bytes of `s` hold.
    #[verifier::opaque]
    pub open spec fn core_decodes(&self, s: Seq<u8>) -> bool {
        &&& self.delivery_system_id == be32(s, 0)
        &&& self.s2xv2_mode == Self::mode(s)
        &&& self.multiple_input_stream_flag == Self::has_isi(s)
        &&& self.roll_off == RollOff::spec_from_u8(s[4] & 0x07)
        &&& self.ncr_reference == (s[5] & 0x20 != 0)
        &&& self.ncr_version == (s[5] & 0x10 != 0)
        &&& self.channel_bond == (s[5] >> 2u8) & 0x03
        &&& self.polarization == Polarization::spec_from_u8(s[5] & 0x03)
        &&& self.scrambling_sequence_selector == if Self::mode(s).spec_has_scrambling_selector() {
            Some((s[6] >> 7u8) & 0x01 != 0)
        } else {
            None
        }
        &&& self.ts_gs_s2x_mode == (s[6] >> 5u8) & 0x03
        &&& self.receiver_profiles == s[6] & 0x1F
        &&& self.satellite_id == be24(s, 7)
        &&& self.frequency == be32(s, 10)
        &&& self.symbol_rate == be32(s, 14)
    }

    /// The optional input_stream_identifier, scrambling index and
    /// timeslice_number are what `s` holds.
    #[verifier::opaque]
    pub open spec fn opt_decodes(&self, s: Seq<u8>) -> bool {
        let i = Self::index_at(s);
        &&& self.input_stream_identifier == if Self::has_isi(s) {
            Some(s[18])
        } else {
            None
        }
        &&& self.scrambling_sequence_index == if Self::has_index(s) {
            Some(index_of(s[i], s[i + 1], s[i + 2]))
        } else {
            None
        }
        &&& self.timeslice_number == if Self::mode(s).spec_has_timeslice() {
            Some(s[Self::ts_at(s)])
        } else {
            None
        }
    }

    /// The secondary ids are what the channel-bond block of `s` holds.
    #[verifier::opaque]
    pub open spec fn bond_decodes(&self, s: Seq<u8>) -> bool {
        let b = Self::bond_at(s);
        if Self::has_bond(s) {
            &&& self.secondary_delivery_system_ids@.len() == Self::bond_count(s)
            &&& forall|k: int|
                0 <= k < Self::bond_count(s) ==> #[trigger] self.secondary_delivery_system_ids@[k] == be32(
                    s,
                    b + 1 + 4 * k,
                )
        } else {
            self.secondary_delivery_system_ids@.len() == 0
        }
    }

    /// The superframe is what the superframe block of `s` holds.
    #[verifier::opaque]
    pub open spec fn sf_decodes(&self, s: Seq<u8>) -> bool {
        if Self::mode(s).spec_has_superframe() {
            self.superframe matches Some(sf) && sf.decodes(s.subrange(Self::sf_at(s), Self::tail_at(s)))
        } else {
            self.superframe is None
        }
    }

    /// `self` is what parsing the selector bytes `s` yields.
    pub open spec fn decodes(&self, s: Seq<u8>) -> bool {
        &&& self.core_decodes(s)
        &&& self.opt_decodes(s)
        &&& self.bond_decodes(s)
        &&& self.sf_decodes(s)
        &&& self.reserved_tail@ == s.subrange(Self::tail_at(s), s.len() as int)
    }

    /// The 18 core bytes.
    pub open spec fn core_wire(&self) -> Seq<u8> {
        u32_bytes(self.delivery_system_id) + seq![
            ((self.s2xv2_mode.spec_to_u8() & 0x0F) << 4u8) | (bit(self.multiple_input_stream_flag) << 3u8) | (
            self.roll_off.spec_to_u8() & 0x07),
            (bit(self.ncr_reference) << 5u8) | (bit(self.ncr_version) << 4u8) | ((self.channel_bond & 0x03) << 2u8)
                | (self.polarization.spec_to_u8() & 0x03),
            (bit(self.scrambling_sequence_selector == Some(true)) << 7u8) | ((self.ts_gs_s2x_mode & 0x03) << 5u8) | (
            self.receiver_profiles & 0x1F),
        ] + u24_bytes(self.satellite_id) + u32_bytes(self.frequency) + u32_bytes(self.symbol_rate)
    }

    /// The optional input_stream_identifier, scrambling block and timeslice_number.
    pub open spec fn opt_wire(&self) -> Seq<u8> {
        (match self.input_stream_identifier {
            Some(v) => seq![v],
            None => Seq::empty(),
        }) + (if self.scrambling_sequence_selector == Some(true) {
            index_bytes(self.scrambling_sequence_index.unwrap_or(0))
        } else {
            Seq::empty()
        }) + (match self.timeslice_number {
            Some(v) => seq![v],
            None => Seq::empty(),
        })
    }

    /// The optional channel-bond block.
    pub open spec fn bond_wire(&self) -> Seq<u8> {
        if self.channel_bond == 1 {
            let n = self.secondary_delivery_system_ids@.len();
            seq![((if n == 0 { 0 } else { n - 1 }) % 256) as u8 & 0x01] + concat_map(
                self.secondary_delivery_system_ids@,
                id_wire(),
            )
        } else {
            Seq::empty()
        }
    }

    /// The optional superframe block.
    pub open spec fn sf_wire(&self) -> Seq<u8> {
        match self.superframe {
            Some(sf) => sf.wire(),
            None => Seq::empty(),
        }
    }

    /// The selector bytes written by serialization.
    pub open spec fn wire(&self) -> Seq<u8> {
        self.core_wire() + self.opt_wire() + self.bond_wire() + self.sf_wire() + self.reserved_tail@
    }

    /// The length serialization reports: that of the written bytes, except that a
    /// superframe block counts its beamhopping id when its selector is set.
    pub open spec fn sized_len(&self) -> int {
        self.core_wire().len() + self.opt_wire().len() + self.bond_wire().len() + (match self.superframe {
            Some(sf) => sf.sized_len(),
            None => 0,
        }) + self.reserved_tail@.len()
    }

    /// Fields fit their widths and every optional part is present exactly as
    /// the mode and flags say.
    pub open spec fn wf(&self) -> bool {
        &&& self.s2xv2_mode.wf()
        &&& self.s2xv2_mode.spec_to_u8() < 16
        &&& self.roll_off.wf()
        &&& self.roll_off.spec_to_u8() < 8
        &&& self.channel_bond < 4
        &&& self.ts_gs_s2x_mode < 4
        &&& self.receiver_profiles < 32
        &&& self.satellite_id < 0x100_0000
        &&& (self.scrambling_sequence_selector is Some) == self.s2xv2_mode.spec_has_scrambling_selector()
        &&& (self.scrambling_sequence_index is Some) == (self.scrambling_sequence_selector == Some(true))
        &&& self.scrambling_sequence_index.unwrap_or(0) < 0x40000
        &&& (self.input_stream_identifier is Some) == self.multiple_input_stream_flag
        &&& (self.timeslice_number is Some) == self.s2xv2_mode.spec_has_timeslice()
        &&& if self.channel_bond == 1 {
            1 <= self.secondary_delivery_system_ids@.len() <= 2
        } else {
            self.secondary_delivery_system_ids@.len() == 0
        }
        &&& (self.superframe is Some) == self.s2xv2_mode.spec_has_superframe()
        &&& self.superframe matches Some(sf) ==> sf.wf()
    }

    /// Checks the lengths of the blocks in wire order, reporting the first
    /// one that is missing.
    fn check(sel: &[u8]) -> (r: Result<(), Error>)
        ensures
            r is Ok <==> Self::sel_ok(sel@),
            r matches Err(e) ==> Self::sel_error(e, sel@),
    {
        if sel.len() < S2XV2_CORE_LEN {
            return Err(Error::BufferTooShort { need: S2XV2_CORE_LEN, have: sel.len(), what: "S2Xv2 body" });
        }
        let b4 = sel[4];
        let mode = S2Xv2Mode::from_u8(b4 >> 4u8);
        let mut pos: usize = S2XV2_CORE_LEN;
        if (b4 & 0x08) != 0 {
            if sel.len() < pos + 1 {
                return Err(
                    Error::BufferTooShort { need: pos + 1, have: sel.len(), what: "S2Xv2 body (input_stream_identifier)" },
                );
            }
            pos = pos + 1;
        }
        assert(pos == Self::index_at(sel@));
        if mode.has_scrambling_selector() && (sel[6] >> 7u8) & 0x01 != 0 {
            if sel.len() - pos < S2XV2_SCRAMBLING_LEN {
                return Err(
                    Error::BufferTooShort {
                        need: pos.saturating_add(S2XV2_SCRAMBLING_LEN),
                        have: sel.len(),
                        what: "S2Xv2 body (scrambling_sequence_index)",
                    },
                );
            }
            pos = pos + S2XV2_SCRAMBLING_LEN;
        }
        assert(pos == Self::ts_at(sel@));
        if mode.has_timeslice() {
            if sel.len() - pos < 1 {
                return Err(
                    Error::BufferTooShort { need: pos.saturating_add(1), have: sel.len(), what: "S2Xv2 body (timeslice_number)" },
                );
            }
            pos = pos + 1;
        }
        assert(pos == Self::bond_at(sel@));
        if (sel[5] >> 2u8) & 0x03 == 1 {
            if sel.len() - pos < 1 {
                return Err(
                    Error::BufferTooShort {
                        need: pos.saturating_add(1),
                        have: sel.len(),
                        what: "S2Xv2 body (channel_bond header)",
                    },
                );
            }
            let bond_byte = sel[pos];
            assert(bond_byte & 0x01 <= 1) by (bit_vector);
            let n: usize = (bond_byte & 0x01) as usize + 1;
            if sel.len() - pos - 1 < 4 {
                return Err(
                    Error::BufferTooShort {
                        need: pos.saturating_add(5),
                        have: sel.len(),
                        what: "S2Xv2 body (secondary_delivery_system_id)",
                    },
                );
            }
            if sel.len() - pos - 1 < 4 * n {
                return Err(
                    Error::BufferTooShort {
                        need: pos.saturating_add(1 + 4 * n),
                        have: sel.len(),
                        what: "S2Xv2 body (secondary_delivery_system_id)",
                    },
                );
            }
            pos = pos + 1 + 4 * n;
        }
        assert(pos == Self::sf_at(sel@));
        if mode.has_superframe() {
            if sel.len() - pos < S2XV2_SUPERFRAME_MIN_LEN {
                return Err(
                    Error::BufferTooShort {
                        need: pos.saturating_add(S2XV2_SUPERFRAME_MIN_LEN),
                        have: sel.len(),
                        what: "S2Xv2 body (superframe)",
                    },
                );
            }
            let bh = (sel[pos + 1] & 0x40) != 0;
            if bh && sel.len() - pos < 11 {
                return Err(
                    Error::BufferTooShort {
                        need: pos.saturating_add(11),
                        have: sel.len(),
                        what: "S2Xv2 body (beamhopping_time_plan_id)",
                    },
                );
            }
            if bh && sel.len() - pos < S2XV2_SUPERFRAME_BH_LEN {
                return Err(
                    Error::BufferTooShort {
                        need: pos.saturating_add(S2XV2_SUPERFRAME_BH_LEN),
                        have: sel.len(),
                        what: "S2Xv2 body (superframe final byte)",
                    },
                );
            }
        }
        Ok(())
    }

    /// Reads the fields of selector bytes whose blocks are all present.
    #[verifier::rlimit(30)]
    fn build(sel: &'a [u8]) -> (d: Self)
        requires
            Self::sel_ok(sel@),
        ensures
            d.decodes(sel@),
    {
        let delivery_system_id = read_u32(sel, 0);
        let b4 = sel[4];
        let s2xv2_mode = S2Xv2Mode::from_u8(b4 >> 4u8);
        let multiple_input_stream_flag = (b4 & 0x08) != 0;
        let roll_off = RollOff::from_u8(b4 & 0x07);
        let b5 = sel[5];
        let channel_bond = (b5 >> 2u8) & 0x03;
        let b6 = sel[6];
        let scrambling_sequence_selector = if s2xv2_mode.has_scrambling_selector() {
            Some(((b6 >> 7u8) & 0x01) != 0)
        } else {
            None
        };
        let s7 = sel[7];
        let s8 = sel[8];
        let s9 = sel[9];
        let satellite_id = ((s7 as u32) << 16u32) | ((s8 as u32) << 8u32) | (s9 as u32);
        assert(satellite_id == s7 * 65536 + s8 * 256 + s9) by (bit_vector)
            requires
                satellite_id == ((s7 as u32) << 16u32) | ((s8 as u32) << 8u32) | (s9 as u32),
        ;
        let frequency = read_u32(sel, 10);
        let symbol_rate = read_u32(sel, 14);
        let mut pos: usize = S2XV2_CORE_LEN;
        let input_stream_identifier = if multiple_input_stream_flag {
            pos = pos + 1;
            Some(sel[18])
        } else {
            None
        };
        assert(pos == Self::index_at(sel@));
        let scrambling_sequence_index = if scrambling_sequence_selector == Some(true) {
            let idx = (((sel[pos] & 0x03) as u32) << 16u32) | ((sel[pos + 1] as u32) << 8u32) | (sel[pos + 2] as u32);
            pos = pos + S2XV2_SCRAMBLING_LEN;
            Some(idx)
        } else {
            None
        };
        assert(pos == Self::ts_at(sel@));
        let timeslice_number = if s2xv2_mode.has_timeslice() {
            let ts = sel[pos];
            pos = pos + 1;
            Some(ts)
        } else {
            None
        };
        assert(pos == Self::bond_at(sel@));
        let secondary_delivery_system_ids = if channel_bond == 1 {
            let ids = read_bond(sel, pos);
            pos = pos + 1 + 4 * ids.len();
            ids
        } else {
            Vec::new()
        };
        assert(pos == Self::sf_at(sel@));
        let superframe = if s2xv2_mode.has_superframe() {
            let sf = read_superframe(sel, pos);
            pos = pos + sf.written_len();
            Some(sf)
        } else {
            None
        };
        assert(pos == Self::tail_at(sel@));
        let d = S2Xv2SatelliteDeliverySystem {
            delivery_system_id,
            s2xv2_mode,
            multiple_input_stream_flag,
            roll_off,
            ncr_reference: (b5 & 0x20) != 0,
            ncr_version: (b5 & 0x10) != 0,
            channel_bond,
            polarization: Polarization::from_u8(b5 & 0x03),
            scrambling_sequence_selector,
            ts_gs_s2x_mode: (b6 >> 5u8) & 0x03,
            receiver_profiles: b6 & 0x1F,
            satellite_id,
            frequency,
            symbol_rate,
            input_stream_identifier,
            scrambling_sequence_index,
            timeslice_number,
            secondary_delivery_system_ids,
            superframe,
            reserved_tail: &sel[pos..sel.len()],
        };
        assert(d.core_decodes(sel@)) by {
            reveal(S2Xv2SatelliteDeliverySystem::core_decodes);
        }
        assert(d.opt_decodes(sel@)) by {
            reveal(S2Xv2SatelliteDeliverySystem::opt_decodes);
        }
        assert(d.bond_decodes(sel@)) by {
            reveal(S2Xv2SatelliteDeliverySystem::bond_decodes);
        }
        assert(d.sf_decodes(sel@)) by {
            reveal(S2Xv2SatelliteDeliverySystem::sf_decodes);
        }
        d
    }

    /// Parses the S2Xv2_satellite_delivery_system body.
    pub fn parse(sel: &'a [u8]) -> (r: Result<Self, Error>)
        ensures
            r is Ok <==> Self::sel_ok(sel@),
            r matches Ok(d) ==> d.decodes(sel@),
            r matches Err(e) ==> Self::sel_error(e, sel@),
    {
        Self::check(sel)?;
        Ok(Self::build(sel))
    }

    /// Length of the selector bytes, with the superframe block sized by its
    /// beamhopping selector.
    pub fn serialized_len(&self) -> (n: usize)
        requires
            self.sized_len() <= usize::MAX,
        ensures
            n == self.sized_len(),
    {
        proof {
            let ids = self.secondary_delivery_system_ids@;
            assert forall|i: int| 0 <= i < ids.len() implies #[trigger] id_wire()(ids[i]).len() == 4 by {}
            lemma_concat_map_fixed(ids, id_wire(), 4);
        }
        let a: usize = if self.input_stream_identifier.is_some() {
            1
        } else {
            0
        };
        let b: usize = if self.scrambling_sequence_selector == Some(true) {
            S2XV2_SCRAMBLING_LEN
        } else {
            0
        };
        let c: usize = if self.timeslice_number.is_some() {
            1
        } else {
            0
        };
        let d: usize = if self.channel_bond == 1 {
            1 + self.secondary_delivery_system_ids.len() * 4
        } else {
            0
        };
        let e: usize = match &self.superframe {
            Some(sf) => sf.serialized_len(),
            None => 0,
        };
        S2XV2_CORE_LEN + a + b + c + d + e + self.reserved_tail.len()
    }

    fn write_core(&self, out: &mut Vec<u8>)
        ensures
            final(out)@ == old(out)@ + self.core_wire(),
    {
        push_u32(out, self.delivery_system_id);
        let mis: u8 = if self.multiple_input_stream_flag {
            1
        } else {
            0
        };
        push_u8(out, ((self.s2xv2_mode.to_u8() & 0x0F) << 4u8) | (mis << 3u8) | (self.roll_off.to_u8() & 0x07));
        let nr: u8 = if self.ncr_reference {
            1
        } else {
            0
        };
        let nv: u8 = if self.ncr_version {
            1
        } else {
            0
        };
        push_u8(out, (nr << 5u8) | (nv << 4u8) | ((self.channel_bond & 0x03) << 2u8) | (self.polarization.to_u8() & 0x03));
        let scram: u8 = match self.scrambling_sequence_selector {
            Some(true) => 1,
            _ => 0,
        };
        push_u8(out, (scram << 7u8) | ((self.ts_gs_s2x_mode & 0x03) << 5u8) | (self.receiver_profiles & 0x1F));
        push_u24(out, self.satellite_id);
        push_u32(out, self.frequency);
        push_u32(out, self.symbol_rate);
        assert(out@ =~= old(out)@ + self.core_wire());
    }

    fn write_opt(&self, out: &mut Vec<u8>)
        ensures
            final(out)@ == old(out)@ + self.opt_wire(),
    {
        match self.input_stream_identifier {
            Some(v) => push_u8(out, v),
            None => {},
        }
        if self.scrambling_sequence_selector == Some(true) {
            let idx = match self.scrambling_sequence_index {
                Some(v) => v,
                None => 0,
            } & 0x3FFFF;
            push_u8(out, ((idx >> 16u32) as u8) & 0x03);
            push_u8(out, (idx >> 8u32) as u8);
            push_u8(out, idx as u8);
        }
        match self.timeslice_number {
            Some(v) => push_u8(out, v),
            None => {},
        }
        assert(out@ =~= old(out)@ + self.opt_wire());
    }

    fn write_bond(&self, out: &mut Vec<u8>)
        ensures
            final(out)@ == old(out)@ + self.bond_wire(),
    {
        if self.channel_bond == 1 {
            let n = self.secondary_delivery_system_ids.len();
            let m: usize = if n == 0 {
                0
            } else {
                n - 1
            };
            push_u8(out, ((m % 256) as u8) & 0x01);
            let ghost start = out@;
            let mut i: usize = 0;
            while i < n
                invariant
                    n == self.secondary_delivery_system_ids@.len(),
                    i <= n,
                    out@ == start + concat_map(self.secondary_delivery_system_ids@.subrange(0, i as int), id_wire()),
                decreases n - i,
            {
                proof {
                    lemma_concat_map_push(
                        self.secondary_delivery_system_ids@.subrange(0, i as int),
                        self.secondary_delivery_system_ids@[i as int],
                        id_wire(),
                    );
                    assert(self.secondary_delivery_system_ids@.subrange(0, i as int).push(
                        self.secondary_delivery_system_ids@[i as int],
                    ) =~= self.secondary_delivery_system_ids@.subrange(0, i + 1));
                }
                push_u32(out, self.secondary_delivery_system_ids[i]);
                i = i + 1;
                assert(out@ =~= start + concat_map(self.secondary_delivery_system_ids@.subrange(0, i as int), id_wire()));
            }
            assert(self.secondary_delivery_system_ids@.subrange(0, i as int) =~= self.secondary_delivery_system_ids@);
        }
        assert(out@ =~= old(out)@ + self.bond_wire());
    }

    /// Appends the selector bytes to `out`.
    pub fn write_to(&self, out: &mut Vec<u8>)
        ensures
            final(out)@ == old(out)@ + self.wire(),
    {
        self.write_core(out);
        self.write_opt(out);
        self.write_bond(out);
        match &self.superframe {
            Some(sf) => sf.write_to(out),
            None => {},
        }
        push_bytes(out, self.reserved_tail);
        assert(out@ =~= old(out)@ + self.wire());
    }

    /// Writes the selector bytes to the front of `buf` and returns the sized
    /// length. Where a beamhopping id is present without its selector, or set
    /// without an id, the bytes written are four longer or shorter than that
    /// length; a buffer at least the sized length but shorter than the bytes to
    /// write is left out.
    pub fn serialize_into(&self, buf: &mut [u8]) -> (r: Result<usize, Error>)
        requires
            self.sized_len() <= usize::MAX,
            self.wire().len() <= usize::MAX,
            old(buf)@.len() < self.sized_len() || old(buf)@.len() >= self.wire().len(),
        ensures
            emitted_sized(r, old(buf)@, final(buf)@, self.wire(), self.sized_len()),
    {
        let len = self.serialized_len();
        if buf.len() < len {
            return Err(Error::OutputBufferTooSmall { need: len, have: buf.len() });
        }
        let mut v: Vec<u8> = Vec::new();
        self.write_to(&mut v);
        copy_to_front(buf, &v);
        Ok(len)
    }
}

proof fn lemma_sf_encode_parse(sf: S2Xv2Superframe)
    requires
        sf.wf(),
    ensures
        sf.wire().len() == (if sf.wire()[1] & 0x40 != 0 { 12int } else { 8int }),
        sf.decodes(sf.wire()),
        S2Xv2Superframe::canonical(sf.wire()),
{
    let w = sf.wire();
    let sv = bit(sf.sffi_selector);
    let tv = bit(sf.beam_hopping_time_plan_selector);
    lemma_sf_bits(0, 0, 0, 0, sf.reference_scrambling_index, sf.payload_scrambling_index, sv, tv, sf.sffi.unwrap_or(0), 0);
    lemma_sf_bits(0, 0, 0, 0, 0, 0, 0, 0, sf.superframe_pilots_wh_sequence_number, sf.postamble_pli);
    lemma_sf_bits(w[1], 0, 0, w[4], 0, 0, 0, 0, 0, 0);
    let w1 = w[1];
    let rr = sf.reference_scrambling_index;
    assert(w1 & 0x30 == 0) by (bit_vector)
        requires
            w1 == (sv << 7u8) | (tv << 6u8) | (((rr >> 16u32) as u8) & 0x0F),
    ;
    if sf.beam_hopping_time_plan_selector {
        let id = sf.beamhopping_time_plan_id.unwrap();
        lemma_be32_of_bytes(id);
        assert(w.subrange(7, 11) =~= u32_bytes(id));
    }
    if !sf.sffi_selector {
        let w4 = w[4];
        let pp = sf.payload_scrambling_index;
        assert(w4 >> 4u8 == 0) by (bit_vector)
            requires
                w4 == ((0u8 & 0x0F) << 4u8) | (((pp >> 16u32) as u8) & 0x0F),
        ;
    }
}

proof fn lemma_sf_parse_encode(t: Seq<u8>, sf: S2Xv2Superframe)
    requires
        t.len() >= 8,
        t.len() == sf_len_of(t),
        sf.decodes(t),
    ensures
        S2Xv2Superframe::canonical(t) ==> sf.wire() == t,
        sf.wire().len() == t.len(),
        sf.wf(),
{
    let last = if t[1] & 0x40 != 0 { t[11] } else { t[7] };
    lemma_sf_bits(t[1], t[2], t[3], 0, 0, 0, 0, 0, 0, 0);
    lemma_sf_bits(0, t[5], t[6], t[4], 0, 0, 0, 0, 0, 0);
    lemma_sf_bits(0, 0, 0, last, 0, 0, 0, 0, 0, 0);
    lemma_sf_bits(t[4], t[5], t[6], 0, 0, 0, 0, 0, 0, 0);
    if t[1] & 0x40 != 0 {
        lemma_bytes_of_be32(t, 7);
    }
    if t[1] & 0x80 == 0 && S2Xv2Superframe::canonical(t) {
        let t4 = t[4];
        let t5 = t[5];
        let t6 = t[6];
        let rv = read20(t4, t5, t6);
        assert(((0u8 & 0x0F) << 4u8) | (((rv >> 16u32) as u8) & 0x0F) == t4) by (bit_vector)
            requires
                t4 >> 4u8 == 0,
                rv == (((t4 & 0x0F) as u32) << 16u32) | ((t5 as u32) << 8u32) | (t6 as u32),
        ;
    }
    if S2Xv2Superframe::canonical(t) {
        assert(sf.wire() =~= t);
    }
}

impl<'a> S2Xv2SatelliteDeliverySystem<'a> {
    proof fn lemma_ids_wire(&self)
        ensures
            concat_map(self.secondary_delivery_system_ids@, id_wire()).len() == 4 * self.secondary_delivery_system_ids@.len(),
            forall|i: int|
                0 <= i < self.secondary_delivery_system_ids@.len() ==> concat_map(
                    self.secondary_delivery_system_ids@,
                    id_wire(),
                ).subrange(4 * i, 4 * i + 4) == #[trigger] id_wire()(self.secondary_delivery_system_ids@[i]),
    {
        let ids = self.secondary_delivery_system_ids@;
        assert forall|i: int| 0 <= i < ids.len() implies #[trigger] id_wire()(ids[i]).len() == 4 by {}
        lemma_concat_map_fixed(ids, id_wire(), 4);
    }

    /// The core bytes decode back to the core fields.
    #[verifier::rlimit(50)]
    proof fn lemma_core_encode_parse(&self, w: Seq<u8>)
        requires
            self.wf(),
            w.len() >= 18,
            w.subrange(0, 18) == self.core_wire(),
        ensures
            self.core_decodes(w),
            Self::mode(w) == self.s2xv2_mode,
            Self::has_isi(w) == self.multiple_input_stream_flag,
            Self::has_index(w) == (self.scrambling_sequence_selector == Some(true)),
            Self::has_bond(w) == (self.channel_bond == 1),
    {
        reveal(S2Xv2SatelliteDeliverySystem::core_decodes);
        let c = self.core_wire();
        assert(w[4] == c[4] && w[5] == c[5] && w[6] == c[6]);
        lemma_core_bits(
            0,
            0,
            0,
            self.s2xv2_mode.spec_to_u8(),
            bit(self.multiple_input_stream_flag),
            self.roll_off.spec_to_u8(),
            bit(self.ncr_reference),
            bit(self.ncr_version),
            self.channel_bond,
            self.polarization.spec_to_u8(),
            bit(self.scrambling_sequence_selector == Some(true)),
            self.ts_gs_s2x_mode,
            self.receiver_profiles,
        );
        self.polarization.lemma_to_from();
        let w6 = w[6];
        assert(self.scrambling_sequence_selector == if Self::mode(w).spec_has_scrambling_selector() {
            Some((w6 >> 7u8) & 0x01 != 0)
        } else {
            None
        }) by {
            if self.s2xv2_mode.spec_has_scrambling_selector() {
                let x = self.scrambling_sequence_selector.unwrap();
                assert((w6 >> 7u8) & 0x01 == bit(x));
            }
        }
        lemma_be32_of_bytes(self.delivery_system_id);
        assert(c.subrange(0, 4) =~= u32_bytes(self.delivery_system_id));
        assert(w.subrange(0, 4) =~= c.subrange(0, 4));
        lemma_be24_of_bytes(self.satellite_id);
        assert(c.subrange(7, 10) =~= u24_bytes(self.satellite_id));
        assert(w.subrange(7, 10) =~= c.subrange(7, 10));
        lemma_be32_of_bytes(self.frequency);
        assert(c.subrange(10, 14) =~= u32_bytes(self.frequency));
        assert(w.subrange(10, 14) =~= c.subrange(10, 14));
        lemma_be32_of_bytes(self.symbol_rate);
        assert(c.subrange(14, 18) =~= u32_bytes(self.symbol_rate));
        assert(w.subrange(14, 18) =~= c.subrange(14, 18));
    }

    /// The optional fields decode back, and the channel-bond block follows them.
    proof fn lemma_opt_encode_parse(&self, w: Seq<u8>)
        requires
            self.wf(),
            w.len() >= 18 + self.opt_wire().len(),
            Self::mode(w) == self.s2xv2_mode,
            Self::has_isi(w) == self.multiple_input_stream_flag,
            Self::has_index(w) == (self.scrambling_sequence_selector == Some(true)),
            w.subrange(18, 18 + self.opt_wire().len() as int) == self.opt_wire(),
        ensures
            self.opt_decodes(w),
            Self::bond_at(w) == 18 + self.opt_wire().len(),
    {
        reveal(S2Xv2SatelliteDeliverySystem::opt_decodes);
        let o = self.opt_wire();
        let i: int = 18 + (if self.multiple_input_stream_flag { 1int } else { 0int });
        assert(Self::index_at(w) == i);
        if self.multiple_input_stream_flag {
            assert(w[18] == o[0]);
        }
        if self.scrambling_sequence_selector == Some(true) {
            lemma_s2x_index_bits(self.scrambling_sequence_index.unwrap_or(0), 0, 0, 0);
            assert(w[i] == o[i - 18] && w[i + 1] == o[i - 17] && w[i + 2] == o[i - 16]);
        }
        if self.s2xv2_mode.spec_has_timeslice() {
            assert(w[Self::ts_at(w)] == o[Self::ts_at(w) - 18]);
        }
    }

    /// The channel-bond block decodes back, and the superframe block follows it.
    proof fn lemma_bond_encode_parse(&self, w: Seq<u8>, b: int)
        requires
            self.wf(),
            0 <= b,
            w.len() >= b + self.bond_wire().len(),
            Self::bond_at(w) == b,
            Self::has_bond(w) == (self.channel_bond == 1),
            w.subrange(b, b + self.bond_wire().len() as int) == self.bond_wire(),
        ensures
            self.bond_decodes(w),
            Self::sf_at(w) == b + self.bond_wire().len(),
    {
        reveal(S2Xv2SatelliteDeliverySystem::bond_decodes);
        self.lemma_ids_wire();
        if self.channel_bond == 1 {
            let ids = self.secondary_delivery_system_ids@;
            let n = ids.len();
            let bw = self.bond_wire();
            let b0 = bw[0];
            let nm = (n - 1) as u8;
            assert(b0 & 0x01 == nm) by (bit_vector)
                requires
                    b0 == nm & 0x01,
                    nm <= 1,
            ;
            assert(w[b] == b0);
            assert(Self::bond_count(w) == n);
            let run = concat_map(ids, id_wire());
            assert forall|k: int| 0 <= k < n implies #[trigger] ids[k] == be32(w, b + 1 + 4 * k) by {
                lemma_be32_of_bytes(ids[k]);
                assert(run.subrange(4 * k, 4 * k + 4) == id_wire()(ids[k]));
                assert(w.subrange(b + 1 + 4 * k, b + 5 + 4 * k) =~= bw.subrange(1 + 4 * k, 5 + 4 * k));
                assert(bw.subrange(1 + 4 * k, 5 + 4 * k) =~= run.subrange(4 * k, 4 * k + 4));
                assert(be32(w, b + 1 + 4 * k) == be32(w.subrange(b + 1 + 4 * k, b + 5 + 4 * k), 0));
            }
        }
    }

    /// The superframe decodes back, and the tail follows it.
    proof fn lemma_sf_block_encode_parse(&self, w: Seq<u8>, f: int)
        requires
            self.wf(),
            0 <= f,
            w.len() >= f + self.sf_wire().len(),
            Self::mode(w) == self.s2xv2_mode,
            Self::sf_at(w) == f,
            w.subrange(f, f + self.sf_wire().len() as int) == self.sf_wire(),
        ensures
            self.sf_decodes(w),
            Self::tail_at(w) == f + self.sf_wire().len(),
            self.s2xv2_mode.spec_has_superframe() ==> w.len() >= f + 8,
    {
        reveal(S2Xv2SatelliteDeliverySystem::sf_decodes);
        match self.superframe {
            Some(sf) => {
                lemma_sf_encode_parse(sf);
                assert(w[f + 1] == sf.wire()[1]);
            },
            None => {},
        }
    }
}

/// Encoding then parsing a well-formed S2Xv2 body gives it back.
pub proof fn lemma_s2xv2_encode_parse(d: S2Xv2SatelliteDeliverySystem)
    requires
        d.wf(),
    ensures
        S2Xv2SatelliteDeliverySystem::sel_ok(d.wire()),
        d.decodes(d.wire()),
{
    let w = d.wire();
    let o = d.opt_wire();
    let bw = d.bond_wire();
    let sw = d.sf_wire();
    let b: int = 18 + o.len() as int;
    let f: int = b + bw.len() as int;
    let t: int = f + sw.len() as int;
    assert(w.subrange(0, 18) =~= d.core_wire());
    assert(w.subrange(18, b) =~= o);
    assert(w.subrange(b, f) =~= bw);
    assert(w.subrange(f, t) =~= sw);
    assert(w.subrange(t, w.len() as int) =~= d.reserved_tail@);
    d.lemma_core_encode_parse(w);
    d.lemma_opt_encode_parse(w);
    d.lemma_bond_encode_parse(w, b);
    d.lemma_sf_block_encode_parse(w, f);
}

impl<'a> S2Xv2SatelliteDeliverySystem<'a> {
    /// The core fields encode back to the first 18 bytes.
    proof fn lemma_core_parse_encode(&self, s: Seq<u8>)
        requires
            s.len() >= 18,
            self.core_decodes(s),
        ensures
            Self::canonical(s) ==> self.core_wire() == s.subrange(0, 18),
            self.core_wire().len() == 18,
            self.s2xv2_mode.wf(),
            self.s2xv2_mode.spec_to_u8() < 16,
            self.roll_off.wf(),
            self.roll_off.spec_to_u8() < 8,
            self.channel_bond < 4,
            self.ts_gs_s2x_mode < 4,
            self.receiver_profiles < 32,
            self.satellite_id < 0x100_0000,
            (self.scrambling_sequence_selector is Some) == self.s2xv2_mode.spec_has_scrambling_selector(),
            Self::has_index(s) == (self.scrambling_sequence_selector == Some(true)),
            Self::has_bond(s) == (self.channel_bond == 1),
            Self::has_isi(s) == self.multiple_input_stream_flag,
            Self::mode(s) == self.s2xv2_mode,
    {
        reveal(S2Xv2SatelliteDeliverySystem::core_decodes);
        lemma_core_bits(s[4], s[5], s[6], 0, 0, 0, 0, 0, 0, 0, 0, 0, 0);
        Polarization::lemma_from_to(s[5] & 0x03);
        lemma_bytes_of_be32(s, 0);
        lemma_bytes_of_be24(s, 7);
        lemma_bytes_of_be32(s, 10);
        lemma_bytes_of_be32(s, 14);
        let c = self.core_wire();
        let s4 = s[4];
        let s5 = s[5];
        assert((s5 & 0x03) & 0x03 & 0x03 == s5 & 0x03 && (s5 & 0x03) & 0x03 == s5 & 0x03 && ((s4 >> 4u8) & 0x0F)
            == s4 >> 4u8) by (bit_vector);
        if Self::canonical(s) {
            assert(c[4] == s[4]);
            assert(c[5] == s[5]);
            assert(c[6] == s[6]);
            assert(c.subrange(0, 4) =~= s.subrange(0, 4));
            assert(c.subrange(7, 10) =~= s.subrange(7, 10));
            assert(c.subrange(10, 14) =~= s.subrange(10, 14));
            assert(c.subrange(14, 18) =~= s.subrange(14, 18));
            assert(self.core_wire() =~= s.subrange(0, 18));
        }
    }

    /// The optional fields encode back to their bytes.
    proof fn lemma_opt_parse_encode(&self, s: Seq<u8>)
        requires
            Self::sel_ok(s),
            self.opt_decodes(s),
            Self::mode(s) == self.s2xv2_mode,
            Self::has_isi(s) == self.multiple_input_stream_flag,
            Self::has_index(s) == (self.scrambling_sequence_selector == Some(true)),
        ensures
            Self::canonical(s) ==> self.opt_wire() == s.subrange(18, Self::bond_at(s)),
            self.opt_wire().len() == Self::bond_at(s) - 18,
            (self.scrambling_sequence_index is Some) == (self.scrambling_sequence_selector == Some(true)),
            self.scrambling_sequence_index.unwrap_or(0) < 0x40000,
            (self.input_stream_identifier is Some) == self.multiple_input_stream_flag,
            (self.timeslice_number is Some) == self.s2xv2_mode.spec_has_timeslice(),
    {
        reveal(S2Xv2SatelliteDeliverySystem::opt_decodes);
        let i = Self::index_at(s);
        if Self::has_index(s) {
            lemma_s2x_index_bits(0, s[i], s[i + 1], s[i + 2]);
        }
        if Self::canonical(s) {
            assert(self.opt_wire() =~= s.subrange(18, Self::bond_at(s)));
        }
    }

    /// The channel-bond block encodes back to its bytes.
    proof fn lemma_bond_parse_encode(&self, s: Seq<u8>)
        requires
            Self::sel_ok(s),
            self.bond_decodes(s),
            Self::has_bond(s) == (self.channel_bond == 1),
        ensures
            Self::canonical(s) ==> self.bond_wire() == s.subrange(Self::bond_at(s), Self::sf_at(s)),
            self.bond_wire().len() == Self::sf_at(s) - Self::bond_at(s),
            if self.channel_bond == 1 {
                1 <= self.secondary_delivery_system_ids@.len() <= 2
            } else {
                self.secondary_delivery_system_ids@.len() == 0
            },
    {
        reveal(S2Xv2SatelliteDeliverySystem::bond_decodes);
        let b = Self::bond_at(s);
        let f = Self::sf_at(s);
        if Self::has_bond(s) {
            let ids = self.secondary_delivery_system_ids@;
            let n = ids.len();
            let c = s[b];
            assert(c & 0x01 <= 1 && (c & 0xFE == 0 ==> (((c & 0x01) + 1 - 1) as u8) & 0x01 == c)) by (bit_vector);
            let run = s.subrange(b + 1, f);
            assert forall|k: int| 0 <= k < n implies #[trigger] id_wire()(ids[k]) == run.subrange(4 * k, 4 * k + 4) by {
                lemma_bytes_of_be32(s, b + 1 + 4 * k);
                assert(run.subrange(4 * k, 4 * k + 4) =~= s.subrange(b + 1 + 4 * k, b + 5 + 4 * k));
            }
            lemma_concat_map_blocks(ids, id_wire(), 4, run);
            if Self::canonical(s) {
                assert(self.bond_wire() =~= s.subrange(b, f));
            }
        } else {
            assert(self.bond_wire() =~= s.subrange(b, f));
        }
    }

    /// The superframe encodes back to its bytes.
    proof fn lemma_sf_block_parse_encode(&self, s: Seq<u8>)
        requires
            Self::sel_ok(s),
            self.sf_decodes(s),
            Self::mode(s) == self.s2xv2_mode,
        ensures
            Self::canonical(s) ==> self.sf_wire() == s.subrange(Self::sf_at(s), Self::tail_at(s)),
            self.sf_wire().len() == Self::tail_at(s) - Self::sf_at(s),
            (self.superframe is Some) == self.s2xv2_mode.spec_has_superframe(),
            self.superframe matches Some(sf) ==> sf.wf(),
    {
        reveal(S2Xv2SatelliteDeliverySystem::sf_decodes);
        let f = Self::sf_at(s);
        let t = Self::tail_at(s);
        match self.superframe {
            Some(sf) => {
                let u = s.subrange(f, t);
                assert(u[1] == s[f + 1]);
                lemma_sf_parse_encode(u, sf);
                if Self::canonical(s) {
                    assert(S2Xv2Superframe::canonical(u));
                }
            },
            None => {
                assert(self.sf_wire() =~= s.subrange(f, t));
            },
        }
    }
}

/// Parsing then encoding canonical S2Xv2 bytes gives them back.
pub proof fn lemma_s2xv2_parse_encode(s: Seq<u8>, d: S2Xv2SatelliteDeliverySystem)
    requires
        S2Xv2SatelliteDeliverySystem::sel_ok(s),
        S2Xv2SatelliteDeliverySystem::canonical(s),
        d.decodes(s),
    ensures
        d.wire() == s,
        d.wf(),
{
    d.lemma_core_parse_encode(s);
    d.lemma_opt_parse_encode(s);
    d.lemma_bond_parse_encode(s);
    d.lemma_sf_block_parse_encode(s);
    assert(d.wire() =~= s);
}

/// A parsed S2Xv2SatelliteDeliverySystem is well formed: it encodes again, and parsing that encoding
/// yields it back.
pub proof fn lemma_s2xv2_reparse(s: Seq<u8>, d: S2Xv2SatelliteDeliverySystem)
    requires
        S2Xv2SatelliteDeliverySystem::sel_ok(s),
        d.decodes(s),
    ensures
        d.wf(),
        S2Xv2SatelliteDeliverySystem::sel_ok(d.wire()),
        d.decodes(d.wire()),
        d.wire().len() <= s.len(),
        d.wire().len() == s.len(),
        d.sized_len() == s.len(),
{
    d.lemma_core_parse_encode(s);
    d.lemma_opt_parse_encode(s);
    d.lemma_bond_parse_encode(s);
    d.lemma_sf_block_parse_encode(s);
    lemma_s2xv2_encode_parse(d);
}

/// Parsing is deterministic: two values that decode the same selector bytes
/// agree on every field, their secondary id lists holding the same ids.
pub proof fn lemma_s2xv2_decodes_unique(s: Seq<u8>, d1: S2Xv2SatelliteDeliverySystem, d2: S2Xv2SatelliteDeliverySystem)
    requires
        d1.decodes(s),
        d2.decodes(s),
    ensures
        d1.secondary_delivery_system_ids@ == d2.secondary_delivery_system_ids@,
        d1 == (S2Xv2SatelliteDeliverySystem { secondary_delivery_system_ids: d1.secondary_delivery_system_ids, ..d2 }),
{
    reveal(S2Xv2SatelliteDeliverySystem::core_decodes);
    reveal(S2Xv2SatelliteDeliverySystem::opt_decodes);
    reveal(S2Xv2SatelliteDeliverySystem::bond_decodes);
    reveal(S2Xv2SatelliteDeliverySystem::sf_decodes);
    assert(d1.secondary_delivery_system_ids@ =~= d2.secondary_delivery_system_ids@);
    assert(d1.reserved_tail =~= d2.reserved_tail);
}

/// Round trip of a parsed S2Xv2 body: it is sized exactly as long as the bytes
/// it was parsed from, its encoding is that long and parses again, and what
/// parses from the encoding agrees with it on every field.
pub proof fn lemma_s2xv2_round_trip(s: Seq<u8>, d: S2Xv2SatelliteDeliverySystem, d2: S2Xv2SatelliteDeliverySystem)
    requires
        S2Xv2SatelliteDeliverySystem::sel_ok(s),
        d.decodes(s),
        d2.decodes(d.wire()),
    ensures
        d.sized_len() == s.len(),
        d.wire().len() == s.len(),
        S2Xv2SatelliteDeliverySystem::sel_ok(d.wire()),
        d2.secondary_delivery_system_ids@ == d.secondary_delivery_system_ids@,
        d2 == (S2Xv2SatelliteDeliverySystem { secondary_delivery_system_ids: d2.secondary_delivery_system_ids, ..d }),
{
    lemma_s2xv2_reparse(s, d);
    lemma_s2xv2_decodes_unique(d.wire(), d2, d);
}

impl S2Xv2Mode {
    /// The EN 300 468 S2Xv2_mode codes: each code and the variant it stands for, in literal values.
    pub proof fn lemma_codes()
        ensures
            S2Xv2Mode::spec_from_u8(0) == S2Xv2Mode::Reserved0,
            S2Xv2Mode::spec_from_u8(1) == S2Xv2Mode::S2X,
            S2Xv2Mode::spec_from_u8(2) == S2Xv2Mode::S2XTimeSlicing,
            S2Xv2Mode::spec_from_u8(3) == S2Xv2Mode::Reserved3,
            S2Xv2Mode::spec_from_u8(4) == S2Xv2Mode::S2XSuperframe,
            S2Xv2Mode::spec_from_u8(5) == S2Xv2Mode::S2XSuperframeTimeSlicing,
            S2Xv2Mode::Reserved0.spec_to_u8() == 0,
            S2Xv2Mode::S2X.spec_to_u8() == 1,
            S2Xv2Mode::S2XTimeSlicing.spec_to_u8() == 2,
            S2Xv2Mode::Reserved3.spec_to_u8() == 3,
            S2Xv2Mode::S2XSuperframe.spec_to_u8() == 4,
            S2Xv2Mode::S2XSuperframeTimeSlicing.spec_to_u8() == 5,
            forall|v: u8| v != 0 && v != 1 && v != 2 && v != 3 && v != 4 && v != 5 ==> #[trigger] S2Xv2Mode::spec_from_u8(v) == S2Xv2Mode::Reserved(v),
            forall|v: u8| #[trigger] S2Xv2Mode::Reserved(v).spec_to_u8() == v,
    {
    }
}

/// The S2Xv2_mode and roll_off of a parsed S2Xv2 body, in the literal codes of
/// EN 300 468: mode (high nibble of byte 4) 1 S2X, 2 S2X with time slicing, 4 S2X
/// superframe, 5 S2X superframe with time slicing, 0 and 3 reserved; roll_off
/// (low three bits) 0 α=0.35, 1 α=0.25, 2 α=0.20.
pub proof fn lemma_s2xv2_mode_codes(s: Seq<u8>, d: S2Xv2SatelliteDeliverySystem)
    requires
        d.decodes(s),
    ensures
        s[4] >> 4u8 == 0 ==> d.s2xv2_mode == S2Xv2Mode::Reserved0,
        s[4] >> 4u8 == 1 ==> d.s2xv2_mode == S2Xv2Mode::S2X,
        s[4] >> 4u8 == 2 ==> d.s2xv2_mode == S2Xv2Mode::S2XTimeSlicing,
        s[4] >> 4u8 == 3 ==> d.s2xv2_mode == S2Xv2Mode::Reserved3,
        s[4] >> 4u8 == 4 ==> d.s2xv2_mode == S2Xv2Mode::S2XSuperframe,
        s[4] >> 4u8 == 5 ==> d.s2xv2_mode == S2Xv2Mode::S2XSuperframeTimeSlicing,
        s[4] >> 4u8 != 0 && s[4] >> 4u8 != 1 && s[4] >> 4u8 != 2 && s[4] >> 4u8 != 3 && s[4] >> 4u8 != 4 && s[4] >> 4u8 != 5 ==> d.s2xv2_mode == S2Xv2Mode::Reserved(s[4] >> 4u8),
        s[4] & 0x07 == 0 ==> d.roll_off == RollOff::Alpha035,
        s[4] & 0x07 == 1 ==> d.roll_off == RollOff::Alpha025,
        s[4] & 0x07 == 2 ==> d.roll_off == RollOff::Alpha020,
        s[4] & 0x07 != 0 && s[4] & 0x07 != 1 && s[4] & 0x07 != 2 ==> d.roll_off == RollOff::Reserved(s[4] & 0x07),
{
    reveal(S2Xv2SatelliteDeliverySystem::core_decodes);
}

} // verus!
