//! S2X Satellite Delivery System Descriptor — ETSI EN 300 468 §6.4.6.5.2
//! (tag_extension 0x17).
//!
//! Primary-channel fields are typed. The S2X_mode 3 channel-bonding loop and
//! the trailing reserved_future_use bytes are kept raw in `tail`: everything
//! after the primary input_stream_identifier / timeslice_number.

use super::ExtensionBodyDef;
use super::invalid;
use crate::error::{is_invalid, Error};
use crate::wire::{
    be16, be32, bit, lemma_be16_of_bytes, lemma_be32_of_bytes, lemma_bytes_of_be16, lemma_bytes_of_be32,
    push_bytes, push_u16, push_u32, push_u8, read_u16, read_u32, u16_bytes, u32_bytes,
};
use crate::descriptors::emitted;
use crate::wire::copy_to_front;
use vstd::prelude::*;

verus! {

impl ExtensionBodyDef for S2XSatelliteDeliverySystem<'_> {
    const TAG_EXTENSION: u8 = 0x17;
    const NAME: &'static str = "S2X_SATELLITE_DELIVERY_SYSTEM";
}

/// Length of scrambling_sequence_index with its reserved bits.
const S2X_SCRAMBLING_LEN: usize = 3;

/// Length of the primary channel fields.
const S2X_PRIMARY_LEN: usize = 11;

/// S2X_satellite_delivery_system body (Table 140); `tail` is the raw remainder.
#[derive(Debug, Clone, PartialEq, Eq)]
pub struct S2XSatelliteDeliverySystem<'a> {
    /// receiver_profiles(5) — Table 141.
    pub receiver_profiles: u8,
    /// S2X_mode(2) — Table 142.
    pub s2x_mode: u8,
    /// scrambling_sequence_selector(1).
    pub scrambling_sequence_selector: bool,
    /// TS_GS_S2X_mode(2) — Table 143.
    pub ts_gs_s2x_mode: u8,
    /// scrambling_sequence_index(18), present iff `scrambling_sequence_selector`.
    pub scrambling_sequence_index: Option<u32>,
    /// frequency(32) — primary channel.
    pub frequency: u32,
    /// orbital_position(16).
    pub orbital_position: u16,
    /// west_east_flag(1).
    pub west_east_flag: bool,
    /// polarization(2).
    pub polarization: u8,
    /// multiple_input_stream_flag(1).
    pub multiple_input_stream_flag: bool,
    /// roll_off(3) — Table 144.
    pub roll_off: u8,
    /// symbol_rate(28).
    pub symbol_rate: u32,
    /// input_stream_identifier(8), present iff `multiple_input_stream_flag`.
    pub input_stream_identifier: Option<u8>,
    /// timeslice_number(8), present iff `s2x_mode == 2`.
    pub timeslice_number: Option<u8>,
    /// Raw remainder: S2X_mode 3 channel-bond loop and reserved tail.
    pub tail: &'a [u8],
}

/// The three bytes carrying an 18-bit scrambling_sequence_index.
pub open spec fn index_bytes(i: u32) -> Seq<u8> {
    seq![(((i & 0x3FFFF) >> 16u32) as u8) & 0x03, ((i & 0x3FFFF) >> 8u32) as u8, (i & 0x3FFFF) as u8]
}

/// The 18-bit index read from three bytes.
pub open spec fn index_of(b0: u8, b1: u8, b2: u8) -> u32 {
    (((b0 & 0x03) as u32) << 16u32) | ((b1 as u32) << 8u32) | (b2 as u32)
}

/// The four bytes carrying a 28-bit symbol_rate.
pub open spec fn rate_bytes(r: u32) -> Seq<u8> {
    seq![
        (((r & 0x0FFF_FFFF) >> 24u32) as u8) & 0x0F,
        ((r & 0x0FFF_FFFF) >> 16u32) as u8,
        ((r & 0x0FFF_FFFF) >> 8u32) as u8,
        (r & 0x0FFF_FFFF) as u8,
    ]
}

/// The 28-bit symbol rate read from four bytes.
pub open spec fn rate_of(b0: u8, b1: u8, b2: u8, b3: u8) -> u32 {
    (((b0 & 0x0F) as u32) << 24u32) | ((b1 as u32) << 16u32) | ((b2 as u32) << 8u32) | (b3 as u32)
}

pub proof fn lemma_s2x_index_bits(i: u32, b0: u8, b1: u8, b2: u8)
    by (bit_vector)
    ensures
        i < 0x40000 ==> ((((((i & 0x3FFFF) >> 16u32) as u8) & 0x03) & 0x03) as u32) << 16u32 | ((((i & 0x3FFFF)
            >> 8u32) as u8) as u32) << 8u32 | (((i & 0x3FFFF) as u8) as u32) == i,
        b0 & 0xFC == 0 ==> {
            let x = (((b0 & 0x03) as u32) << 16u32) | ((b1 as u32) << 8u32) | (b2 as u32);
            &&& (((x & 0x3FFFF) >> 16u32) as u8) & 0x03 == b0
            &&& ((x & 0x3FFFF) >> 8u32) as u8 == b1
            &&& (x & 0x3FFFF) as u8 == b2
        },
        (((b0 & 0x03) as u32) << 16u32) | ((b1 as u32) << 8u32) | (b2 as u32) < 0x40000,
{
}

proof fn lemma_s2x_rate_bits(r: u32, b0: u8, b1: u8, b2: u8, b3: u8)
    by (bit_vector)
    ensures
        r < 0x1000_0000 ==> ((((((r & 0x0FFF_FFFF) >> 24u32) as u8) & 0x0F) & 0x0F) as u32) << 24u32 | ((((r
            & 0x0FFF_FFFF) >> 16u32) as u8) as u32) << 16u32 | ((((r & 0x0FFF_FFFF) >> 8u32) as u8) as u32)
            << 8u32 | (((r & 0x0FFF_FFFF) as u8) as u32) == r,
        b0 & 0xF0 == 0 ==> {
            let x = (((b0 & 0x0F) as u32) << 24u32) | ((b1 as u32) << 16u32) | ((b2 as u32) << 8u32) | (b3 as u32);
            &&& (((x & 0x0FFF_FFFF) >> 24u32) as u8) & 0x0F == b0
            &&& ((x & 0x0FFF_FFFF) >> 16u32) as u8 == b1
            &&& ((x & 0x0FFF_FFFF) >> 8u32) as u8 == b2
            &&& (x & 0x0FFF_FFFF) as u8 == b3
        },
        (((b0 & 0x0F) as u32) << 24u32) | ((b1 as u32) << 16u32) | ((b2 as u32) << 8u32) | (b3 as u32)
            < 0x1000_0000,
{
}

proof fn lemma_s2x_flag_bits(a: u8, b: u8, m: u8, g: u8, s: u8, w: u8, p: u8, i: u8, r: u8)
    by (bit_vector)
    requires
        s <= 1,
        w <= 1,
        i <= 1,
    ensures
        a < 32 ==> (a << 3u8) >> 3u8 == a,
        a & 0x07 == 0 ==> ((a >> 3u8) << 3u8) == a,
        a >> 3u8 < 32,
        m < 4 && g < 4 ==> {
            let x = ((m & 0x03) << 6u8) | (s << 5u8) | (g & 0x03);
            &&& (x >> 6u8) & 0x03 == m
            &&& (x & 0x20 != 0) == (s == 1)
            &&& x & 0x03 == g
        },
        b & 0x1C == 0 ==> ((((b >> 6u8) & 0x03) & 0x03) << 6u8) | ((if b & 0x20 != 0 { 1u8 } else { 0u8 })
            << 5u8) | ((b & 0x03) & 0x03) == b,
        (b >> 6u8) & 0x03 < 4,
        b & 0x03 < 4,
        p < 4 && r < 8 ==> {
            let x = (w << 7u8) | ((p & 0x03) << 5u8) | (i << 4u8) | (r & 0x07);
            &&& (x & 0x80 != 0) == (w == 1)
            &&& (x >> 5u8) & 0x03 == p
            &&& (x & 0x10 != 0) == (i == 1)
            &&& x & 0x07 == r
        },
        b & 0x08 == 0 ==> ((if b & 0x80 != 0 { 1u8 } else { 0u8 }) << 7u8) | ((((b >> 5u8) & 0x03) & 0x03) << 5u8)
            | ((if b & 0x10 != 0 { 1u8 } else { 0u8 }) << 4u8) | ((b & 0x07) & 0x07) == b,
        (b >> 5u8) & 0x03 < 4,
        b & 0x07 < 8,
{
}

impl<'a> S2XSatelliteDeliverySystem<'a> {
    /// scrambling_sequence_selector.
    pub open spec fn has_index(s: Seq<u8>) -> bool {
        s[1] & 0x20 != 0
    }

    /// Offset of the primary channel fields.
    pub open spec fn primary_at(s: Seq<u8>) -> int {
        if Self::has_index(s) {
            5
        } else {
            2
        }
    }

    /// multiple_input_stream_flag.
    pub open spec fn has_isi(s: Seq<u8>) -> bool {
        s[Self::primary_at(s) + 6] & 0x10 != 0
    }

    /// S2X_mode is 2 (timeslice_number present).
    pub open spec fn has_timeslice(s: Seq<u8>) -> bool {
        (s[1] >> 6u8) & 0x03 == 2
    }

    /// Offset of timeslice_number (or of the tail when absent).
    pub open spec fn ts_at(s: Seq<u8>) -> int {
        Self::primary_at(s) + 11 + if Self::has_isi(s) {
            1int
        } else {
            0int
        }
    }

    /// Offset of the raw tail.
    pub open spec fn tail_at(s: Seq<u8>) -> int {
        Self::ts_at(s) + if Self::has_timeslice(s) {
            1int
        } else {
            0int
        }
    }

    /// Parsing succeeds on exactly these selector bytes.
    pub open spec fn sel_ok(s: Seq<u8>) -> bool {
        &&& s.len() >= 2
        &&& s.len() >= Self::primary_at(s) + 11
        &&& s.len() >= Self::tail_at(s)
    }

    /// The error reported for selector bytes that do not parse.
    pub open spec fn sel_error(e: Error, s: Seq<u8>) -> bool {
        is_invalid(e, super::TAG)
    }

    /// The reserved bits are zero.
    pub open spec fn canonical(s: Seq<u8>) -> bool {
        let p = Self::primary_at(s);
        &&& s[0] & 0x07 == 0
        &&& s[1] & 0x1C == 0
        &&& Self::has_index(s) ==> s[2] & 0xFC == 0
        &&& s[p + 6] & 0x08 == 0
        &&& s[p + 7] & 0xF0 == 0
    }

    /// `self` is what parsing the selector bytes `s` yields.
    pub open spec fn decodes(&self, s: Seq<u8>) -> bool {
        let p = Self::primary_at(s);
        let q = Self::ts_at(s);
        &&& self.receiver_profiles == s[0] >> 3u8
        &&& self.s2x_mode == (s[1] >> 6u8) & 0x03
        &&& self.scrambling_sequence_selector == Self::has_index(s)
        &&& self.ts_gs_s2x_mode == s[1] & 0x03
        &&& self.scrambling_sequence_index == if Self::has_index(s) {
            Some(index_of(s[2], s[3], s[4]))
        } else {
            None
        }
        &&& self.frequency == be32(s, p)
        &&& self.orbital_position == be16(s, p + 4)
        &&& self.west_east_flag == (s[p + 6] & 0x80 != 0)
        &&& self.polarization == (s[p + 6] >> 5u8) & 0x03
        &&& self.multiple_input_stream_flag == Self::has_isi(s)
        &&& self.roll_off == s[p + 6] & 0x07
        &&& self.symbol_rate == rate_of(s[p + 7], s[p + 8], s[p + 9], s[p + 10])
        &&& self.input_stream_identifier == if Self::has_isi(s) {
            Some(s[p + 11])
        } else {
            None
        }
        &&& self.timeslice_number == if Self::has_timeslice(s) {
            Some(s[q])
        } else {
            None
        }
        &&& self.tail@ == s.subrange(Self::tail_at(s), s.len() as int)
    }

    /// The packed byte of the primary channel.
    pub open spec fn packed(&self) -> u8 {
        (bit(self.west_east_flag) << 7u8) | ((self.polarization & 0x03) << 5u8) | (bit(
            self.multiple_input_stream_flag,
        ) << 4u8) | (self.roll_off & 0x07)
    }

    /// The flag bytes and the optional scrambling index.
    pub open spec fn head(&self) -> Seq<u8> {
        seq![
            self.receiver_profiles << 3u8,
            ((self.s2x_mode & 0x03) << 6u8) | (bit(self.scrambling_sequence_selector) << 5u8) | (
            self.ts_gs_s2x_mode & 0x03),
        ] + (if self.scrambling_sequence_selector {
            index_bytes(self.scrambling_sequence_index.unwrap_or(0))
        } else {
            Seq::empty()
        })
    }

    /// The primary channel fields.
    pub open spec fn primary(&self) -> Seq<u8> {
        u32_bytes(self.frequency) + u16_bytes(self.orbital_position) + seq![self.packed()] + rate_bytes(
            self.symbol_rate,
        )
    }

    /// The optional input_stream_identifier and timeslice_number.
    pub open spec fn trailer(&self) -> Seq<u8> {
        (match self.input_stream_identifier {
            Some(v) => seq![v],
            None => Seq::empty(),
        }) + (match self.timeslice_number {
            Some(v) => seq![v],
            None => Seq::empty(),
        })
    }

    /// The selector bytes written by serialization.
    pub open spec fn wire(&self) -> Seq<u8> {
        self.head() + self.primary() + self.trailer() + self.tail@
    }

    /// Fields fit their widths and optional fields match their flags.
    pub open spec fn wf(&self) -> bool {
        &&& self.receiver_profiles < 32
        &&& self.s2x_mode < 4
        &&& self.ts_gs_s2x_mode < 4
        &&& (self.scrambling_sequence_index is Some) == self.scrambling_sequence_selector
        &&& self.scrambling_sequence_index.unwrap_or(0) < 0x40000
        &&& self.polarization < 4
        &&& self.roll_off < 8
        &&& self.symbol_rate < 0x1000_0000
        &&& (self.input_stream_identifier is Some) == self.multiple_input_stream_flag
        &&& (self.timeslice_number is Some) == (self.s2x_mode == 2)
    }

    /// Parses the S2X_satellite_delivery_system body.
    pub fn parse(sel: &'a [u8]) -> (r: Result<Self, Error>)
        ensures
            r is Ok <==> Self::sel_ok(sel@),
            r matches Ok(d) ==> d.decodes(sel@),
            r matches Err(e) ==> Self::sel_error(e, sel@),
    {
        if sel.len() < 2 {
            return Err(invalid("S2X: flags truncated"));
        }
        let receiver_profiles = sel[0] >> 3u8;
        let b1 = sel[1];
        let s2x_mode = (b1 >> 6u8) & 0x03;
        let scrambling_sequence_selector = (b1 & 0x20) != 0;
        let ts_gs_s2x_mode = b1 & 0x03;
        let mut pos: usize = 2;
        let scrambling_sequence_index = if scrambling_sequence_selector {
            if sel.len() < pos + S2X_SCRAMBLING_LEN {
                return Err(invalid("S2X: scrambling_sequence_index truncated"));
            }
            let idx = (((sel[pos] & 0x03) as u32) << 16u32) | ((sel[pos + 1] as u32) << 8u32) | (sel[pos
                + 2] as u32);
            pos = pos + S2X_SCRAMBLING_LEN;
            Some(idx)
        } else {
            None
        };
        if sel.len() < pos + S2X_PRIMARY_LEN {
            return Err(invalid("S2X: primary channel truncated"));
        }
        let frequency = read_u32(sel, pos);
        let orbital_position = read_u16(sel, pos + 4);
        let pb = sel[pos + 6];
        let west_east_flag = (pb & 0x80) != 0;
        let polarization = (pb >> 5u8) & 0x03;
        let multiple_input_stream_flag = (pb & 0x10) != 0;
        let roll_off = pb & 0x07;
        let symbol_rate = (((sel[pos + 7] & 0x0F) as u32) << 24u32) | ((sel[pos + 8] as u32) << 16u32) | ((
        sel[pos + 9] as u32) << 8u32) | (sel[pos + 10] as u32);
        pos = pos + S2X_PRIMARY_LEN;
        let input_stream_identifier = if multiple_input_stream_flag {
            if sel.len() < pos + 1 {
                return Err(invalid("S2X: input_stream_identifier truncated"));
            }
            let isi = sel[pos];
            pos = pos + 1;
            Some(isi)
        } else {
            None
        };
        let timeslice_number = if s2x_mode == 2 {
            if sel.len() < pos + 1 {
                return Err(invalid("S2X: timeslice_number truncated"));
            }
            let ts = sel[pos];
            pos = pos + 1;
            Some(ts)
        } else {
            None
        };
        Ok(
            S2XSatelliteDeliverySystem {
                receiver_profiles,
                s2x_mode,
                scrambling_sequence_selector,
                ts_gs_s2x_mode,
                scrambling_sequence_index,
                frequency,
                orbital_position,
                west_east_flag,
                polarization,
                multiple_input_stream_flag,
                roll_off,
                symbol_rate,
                input_stream_identifier,
                timeslice_number,
                tail: &sel[pos..sel.len()],
            },
        )
    }

    /// Length of the selector bytes.
    pub fn serialized_len(&self) -> (n: usize)
        requires
            self.wire().len() <= usize::MAX,
        ensures
            n == self.wire().len(),
    {
        let a: usize = if self.scrambling_sequence_selector {
            S2X_SCRAMBLING_LEN
        } else {
            0
        };
        let b: usize = if self.input_stream_identifier.is_some() {
            1
        } else {
            0
        };
        let c: usize = if self.timeslice_number.is_some() {
            1
        } else {
            0
        };
        2 + a + S2X_PRIMARY_LEN + b + c + self.tail.len()
    }

    /// Writes the selector bytes to the front of `buf`.
    pub fn serialize_into(&self, buf: &mut [u8]) -> (r: Result<usize, Error>)
        requires
            self.wire().len() <= usize::MAX,
        ensures
            emitted(r, old(buf)@, final(buf)@, self.wire()),
    {
        let len = self.serialized_len();
        if buf.len() < len {
            return Err(Error::OutputBufferTooSmall { need: len, have: buf.len() });
        }
        let mut v: Vec<u8> = Vec::new();
        self.write_to(&mut v);
        copy_to_front(buf, &v);
        Ok(len)
    }

    fn write_head(&self, out: &mut Vec<u8>)
        ensures
            final(out)@ == old(out)@ + self.head(),
    {
        let ss: u8 = if self.scrambling_sequence_selector {
            1
        } else {
            0
        };
        push_u8(out, self.receiver_profiles << 3u8);
        push_u8(out, ((self.s2x_mode & 0x03) << 6u8) | (ss << 5u8) | (self.ts_gs_s2x_mode & 0x03));
        if self.scrambling_sequence_selector {
            let idx = match self.scrambling_sequence_index {
                Some(v) => v,
                None => 0,
            } & 0x3FFFF;
            push_u8(out, ((idx >> 16u32) as u8) & 0x03);
            push_u8(out, (idx >> 8u32) as u8);
            push_u8(out, idx as u8);
        }
        assert(out@ =~= old(out)@ + self.head());
    }

    fn write_primary(&self, out: &mut Vec<u8>)
        ensures
            final(out)@ == old(out)@ + self.primary(),
    {
        push_u32(out, self.frequency);
        push_u16(out, self.orbital_position);
        let we: u8 = if self.west_east_flag {
            1
        } else {
            0
        };
        let mis: u8 = if self.multiple_input_stream_flag {
            1
        } else {
            0
        };
        push_u8(out, (we << 7u8) | ((self.polarization & 0x03) << 5u8) | (mis << 4u8) | (self.roll_off & 0x07));
        let sr = self.symbol_rate & 0x0FFF_FFFF;
        push_u8(out, ((sr >> 24u32) as u8) & 0x0F);
        push_u8(out, (sr >> 16u32) as u8);
        push_u8(out, (sr >> 8u32) as u8);
        push_u8(out, sr as u8);
        assert(out@ =~= old(out)@ + self.primary());
    }

    /// Appends the selector bytes to `out`.
    pub fn write_to(&self, out: &mut Vec<u8>)
        ensures
            final(out)@ == old(out)@ + self.wire(),
    {
        self.write_head(out);
        self.write_primary(out);
        let ghost mid = out@;
        match self.input_stream_identifier {
            Some(v) => push_u8(out, v),
            None => {},
        }
        match self.timeslice_number {
            Some(v) => push_u8(out, v),
            None => {},
        }
        assert(out@ =~= mid + self.trailer());
        push_bytes(out, self.tail);
        assert(out@ =~= old(out)@ + self.wire());
    }
}

/// Encoding then parsing a well-formed S2X body gives it back.
pub proof fn lemma_s2x_encode_parse(d: S2XSatelliteDeliverySystem)
    requires
        d.wf(),
    ensures
        S2XSatelliteDeliverySystem::sel_ok(d.wire()),
        d.decodes(d.wire()),
{
    let w = d.wire();
    lemma_s2x_flag_bits(
        d.receiver_profiles,
        0,
        d.s2x_mode,
        d.ts_gs_s2x_mode,
        bit(d.scrambling_sequence_selector),
        bit(d.west_east_flag),
        d.polarization,
        bit(d.multiple_input_stream_flag),
        d.roll_off,
    );
    let p: int = if d.scrambling_sequence_selector { 5 } else { 2 };
    if d.scrambling_sequence_selector {
        lemma_s2x_index_bits(d.scrambling_sequence_index.unwrap_or(0), 0, 0, 0);
    }
    assert(S2XSatelliteDeliverySystem::primary_at(w) == p);
    lemma_be32_of_bytes(d.frequency);
    lemma_be16_of_bytes(d.orbital_position);
    assert(w.subrange(p, p + 4) =~= u32_bytes(d.frequency));
    assert(w.subrange(p + 4, p + 6) =~= u16_bytes(d.orbital_position));
    lemma_s2x_rate_bits(d.symbol_rate, 0, 0, 0, 0);
    assert(w[p + 6] == d.packed());
    let t: int = S2XSatelliteDeliverySystem::tail_at(w);
    assert(w.subrange(t, w.len() as int) =~= d.tail@);
}

/// Parsing then encoding canonical S2X bytes gives them back.
pub proof fn lemma_s2x_parse_encode(s: Seq<u8>, d: S2XSatelliteDeliverySystem)
    requires
        S2XSatelliteDeliverySystem::sel_ok(s),
        S2XSatelliteDeliverySystem::canonical(s),
        d.decodes(s),
    ensures
        d.wire() == s,
        d.wf(),
{
    let p = S2XSatelliteDeliverySystem::primary_at(s);
    lemma_s2x_flag_bits(s[0], s[1], 0, 0, 0, 0, 0, 0, 0);
    lemma_s2x_flag_bits(0, s[p + 6], 0, 0, 0, 0, 0, 0, 0);
    if S2XSatelliteDeliverySystem::has_index(s) {
        lemma_s2x_index_bits(0, s[2], s[3], s[4]);
    }
    lemma_s2x_rate_bits(0, s[p + 7], s[p + 8], s[p + 9], s[p + 10]);
    lemma_bytes_of_be32(s, p);
    lemma_bytes_of_be16(s, p + 4);
    assert(d.wire() =~= s);
}

/// A parsed S2XSatelliteDeliverySystem is well formed: it encodes again, and parsing that encoding
/// yields it back.
pub proof fn lemma_s2x_reparse(s: Seq<u8>, d: S2XSatelliteDeliverySystem)
    requires
        S2XSatelliteDeliverySystem::sel_ok(s),
        d.decodes(s),
    ensures
        d.wf(),
        S2XSatelliteDeliverySystem::sel_ok(d.wire()),
        d.decodes(d.wire()),
        d.wire().len() <= s.len(),
{
    let p = S2XSatelliteDeliverySystem::primary_at(s);
    lemma_s2x_flag_bits(s[0], s[1], 0, 0, 0, 0, 0, 0, 0);
    lemma_s2x_flag_bits(0, s[p + 6], 0, 0, 0, 0, 0, 0, 0);
    if S2XSatelliteDeliverySystem::has_index(s) {
        lemma_s2x_index_bits(0, s[2], s[3], s[4]);
    }
    lemma_s2x_rate_bits(0, s[p + 7], s[p + 8], s[p + 9], s[p + 10]);
    lemma_s2x_encode_parse(d);
}

/// Parsing, encoding and parsing again gives the same value: whatever parses
/// from the encoding of a parsed S2XSatelliteDeliverySystem equals it.
pub proof fn lemma_s2x_round_trip(s: Seq<u8>, d: S2XSatelliteDeliverySystem, d2: S2XSatelliteDeliverySystem)
    requires
        S2XSatelliteDeliverySystem::sel_ok(s),
        d.decodes(s),
        d2.decodes(d.wire()),
    ensures
        d2 == d,
{
    lemma_s2x_reparse(s, d);
    assert(d2.tail =~= d.tail);
}

} // verus!
