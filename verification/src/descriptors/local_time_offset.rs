//! Local Time Offset Descriptor — ETSI EN 300 468 §6.2.20 (tag 0x58).
//!
//! Carried inside the TOT (Time Offset Table) on PID 0x0014. Signals per-
//! country offsets from UTC plus any upcoming DST transition.
//!
//! Each 13-byte entry: country_code(24) | country_region_id(6) | reserved(1)
//! | local_time_offset_polarity(1) | local_time_offset(16, BCD HHMM)
//! | time_of_change(40, MJD + BCD HHMMSS) | next_time_offset(16, BCD HHMM).
//! The reserved bit is ignored on parse and written as one.

use super::{body_of, descriptor_body, emitted, framed, framed_prefix, header_error, header_ok, lemma_framed_parses, lemma_reframe, HEADER_LEN};
use crate::bcd::{bcd_digits_ok, bcd_encode, bcd_value, from_bcd_byte, lemma_bcd_decode_encode, lemma_bcd_encode_bound, pow10, pow16, to_bcd_byte};
use crate::error::{is_invalid, is_out_of_range, Error};
use crate::text::LangCode;
use crate::wire::{
    be16, code_bytes, concat_map, copy_to_front, lemma_be16_of_bytes, lemma_bytes_of_be16, lemma_concat_map_blocks,
    lemma_concat_map_fixed, lemma_concat_map_push, push_code, push_u16, push_u8, read_code, read_u16, u16_bytes,
};
use vstd::prelude::*;

verus! {

/// Descriptor tag for local_time_offset_descriptor.
pub const TAG: u8 = 0x58;

/// Size of one entry.
const ENTRY_LEN: usize = 13;

/// One per-country offset entry.
#[derive(Debug, Clone, Copy, PartialEq, Eq)]
pub struct LocalTimeOffsetEntry {
    /// ISO 3166 alpha country code.
    pub country_code: LangCode,
    /// 6-bit country_region_id for sub-national regions.
    pub country_region_id: u8,
    /// Polarity: false = offset is positive (local = UTC + offset),
    /// true = offset is negative (local = UTC − offset).
    pub local_time_offset_negative: bool,
    /// 16-bit BCD HHMM local time offset.
    pub local_time_offset_bcd: u16,
    /// 40-bit MJD+BCD UTC raw bytes of the DST/offset transition moment;
    /// [`Self::time_of_change_parts`] decodes it.
    pub time_of_change_raw: [u8; 5],
    /// 16-bit BCD HHMM next offset (applied after `time_of_change`).
    pub next_time_offset_bcd: u16,
}

/// The five bytes of a time-of-change field.
pub open spec fn raw_bytes(q: [u8; 5]) -> Seq<u8> {
    seq![q[0], q[1], q[2], q[3], q[4]]
}

/// The value of one packed-BCD byte, if both nibbles are decimal digits.
pub open spec fn bcd_byte(b: u8) -> Option<u8> {
    if bcd_digits_ok(b as nat, 2) {
        Some(bcd_value(b as nat, 2) as u8)
    } else {
        None
    }
}

impl LocalTimeOffsetEntry {
    /// The time-of-change bytes.
    pub open spec fn spec_time_of_change_raw(&self) -> [u8; 5] {
        self.time_of_change_raw
    }

    /// Creates a new entry with all fields specified.
    pub fn new(
        country_code: LangCode,
        country_region_id: u8,
        local_time_offset_negative: bool,
        local_time_offset_bcd: u16,
        time_of_change_raw: [u8; 5],
        next_time_offset_bcd: u16,
    ) -> (e: Self)
        ensures
            e.country_code == country_code,
            e.country_region_id == country_region_id,
            e.local_time_offset_negative == local_time_offset_negative,
            e.local_time_offset_bcd == local_time_offset_bcd,
            e.spec_time_of_change_raw() == time_of_change_raw,
            e.next_time_offset_bcd == next_time_offset_bcd,
    {
        LocalTimeOffsetEntry {
            country_code,
            country_region_id,
            local_time_offset_negative,
            local_time_offset_bcd,
            time_of_change_raw,
            next_time_offset_bcd,
        }
    }

    /// Decodes `time_of_change_raw` into its MJD + BCD HHMMSS components:
    /// `(mjd, hours, minutes, seconds)`. Each BCD field is `None` if its
    /// nibbles are non-decimal.
    pub fn time_of_change_parts(&self) -> (r: (u16, Option<u8>, Option<u8>, Option<u8>))
        ensures
            r.0 == be16(raw_bytes(self.spec_time_of_change_raw()), 0),
            r.1 == bcd_byte(self.spec_time_of_change_raw()[2]),
            r.2 == bcd_byte(self.spec_time_of_change_raw()[3]),
            r.3 == bcd_byte(self.spec_time_of_change_raw()[4]),
    {
        let q = self.time_of_change_raw;
        let mjd = q[0] as u16 * 256 + q[1] as u16;
        let h = from_bcd_byte(q[2]);
        let m = from_bcd_byte(q[3]);
        let s = from_bcd_byte(q[4]);
        proof {
            crate::bcd::lemma_bcd_value_bound(q[2] as nat, 2);
            crate::bcd::lemma_bcd_value_bound(q[3] as nat, 2);
            crate::bcd::lemma_bcd_value_bound(q[4] as nat, 2);
            reveal_with_fuel(crate::bcd::pow10, 3);
        }
        (mjd, h, m, s)
    }

    /// The raw 5-byte MJD+BCD time-of-change field.
    pub fn time_of_change_raw(&self) -> (r: [u8; 5])
        ensures
            r == self.spec_time_of_change_raw(),
    {
        self.time_of_change_raw
    }

    /// Sets the `time_of_change_raw` field directly.
    pub fn set_time_of_change_raw(&mut self, raw: [u8; 5])
        ensures
            final(self).spec_time_of_change_raw() == raw,
            final(self).country_code == old(self).country_code,
            final(self).country_region_id == old(self).country_region_id,
            final(self).local_time_offset_negative == old(self).local_time_offset_negative,
            final(self).local_time_offset_bcd == old(self).local_time_offset_bcd,
            final(self).next_time_offset_bcd == old(self).next_time_offset_bcd,
    {
        self.time_of_change_raw = raw;
    }

    /// `self` is what parsing the 13 entry bytes `t` yields.
    pub open spec fn decodes(&self, t: Seq<u8>) -> bool {
        &&& code_bytes(self.country_code.0) == t.subrange(0, 3)
        &&& self.country_region_id == t[3] / 4
        &&& self.local_time_offset_negative == (t[3] % 2 == 1)
        &&& self.local_time_offset_bcd == be16(t, 4)
        &&& raw_bytes(self.spec_time_of_change_raw()) == t.subrange(6, 11)
        &&& self.next_time_offset_bcd == be16(t, 11)
    }

    /// The flags byte written: region id, reserved one, polarity.
    pub open spec fn flags_byte(&self) -> u8 {
        ((self.country_region_id % 64) * 4 + 2 + (if self.local_time_offset_negative {
            1int
        } else {
            0int
        })) as u8
    }

    /// The 13 entry bytes.
    pub open spec fn wire(&self) -> Seq<u8> {
        code_bytes(self.country_code.0) + seq![self.flags_byte()] + u16_bytes(self.local_time_offset_bcd) + raw_bytes(
            self.time_of_change_raw,
        ) + u16_bytes(self.next_time_offset_bcd)
    }

    /// Appends the 13 entry bytes.
    fn push_wire(&self, out: &mut Vec<u8>)
        ensures
            final(out)@ == old(out)@ + self.wire(),
    {
        push_code(out, self.country_code.0);
        let mut f: u8 = (self.country_region_id % 64) * 4 + 2;
        if self.local_time_offset_negative {
            f = f + 1;
        }
        push_u8(out, f);
        push_u16(out, self.local_time_offset_bcd);
        let q = self.time_of_change_raw;
        push_u8(out, q[0]);
        push_u8(out, q[1]);
        push_u8(out, q[2]);
        push_u8(out, q[3]);
        push_u8(out, q[4]);
        push_u16(out, self.next_time_offset_bcd);
        assert(out@ =~= old(out)@ + self.wire());
    }
}

// ---------------------------------------------------------------------------
// Offsets as chrono time deltas
// ---------------------------------------------------------------------------

#[verifier::external_type_specification]
#[verifier::external_body]
pub struct ExTimeDelta(chrono::TimeDelta);

/// The span that `chrono::TimeDelta::minutes` makes of `m` minutes.
pub uninterp spec fn delta_of_minutes(m: int) -> chrono::TimeDelta;

/// Whether a span is shorter than zero (`d < TimeDelta::zero()`).
pub uninterp spec fn delta_negative(d: chrono::TimeDelta) -> bool;

/// Whether a span is exactly zero (`TimeDelta::is_zero`).
pub uninterp spec fn delta_zero(d: chrono::TimeDelta) -> bool;

/// The whole minutes of a span, rounded toward zero (`TimeDelta::num_minutes`).
pub uninterp spec fn delta_minutes(d: chrono::TimeDelta) -> int;

/// Calls `chrono::TimeDelta::minutes`; its result is named [`delta_of_minutes`].
/// It panics only beyond about ±1.5·10^14 minutes, which `requires` rules out.
/// The span it makes holds `m * 60` seconds and no nanoseconds, so its whole
/// minutes are `m`, it is below zero exactly when `m` is, and zero exactly when
/// `m` is.
#[verifier::external_body]
fn minutes_delta(m: i64) -> (d: chrono::TimeDelta)
    requires
        -1_000_000_000 <= m <= 1_000_000_000,
    ensures
        d == delta_of_minutes(m as int),
        delta_minutes(d) == m,
        delta_negative(d) == (m < 0),
        delta_zero(d) == (m == 0),
{
    chrono::TimeDelta::minutes(m)
}

/// Compares a span with `chrono::TimeDelta::zero()`; the answer is named [`delta_negative`].
#[verifier::external_body]
fn delta_is_negative(d: &chrono::TimeDelta) -> (b: bool)
    ensures
        b == delta_negative(*d),
{
    *d < chrono::TimeDelta::zero()
}

/// Calls `chrono::TimeDelta::is_zero`; the answer is named [`delta_zero`].
#[verifier::external_body]
fn delta_is_zero(d: &chrono::TimeDelta) -> (b: bool)
    ensures
        b == delta_zero(*d),
{
    d.is_zero()
}

/// Calls `chrono::TimeDelta::num_minutes`; the answer is named [`delta_minutes`].
#[verifier::external_body]
fn delta_num_minutes(d: &chrono::TimeDelta) -> (m: i64)
    ensures
        m == delta_minutes(*d),
{
    d.num_minutes()
}

/// The signed minutes of a BCD `HHMM` offset, if both bytes are valid BCD.
pub open spec fn hhmm_minutes(bcd: u16, negative: bool) -> Option<int> {
    match (bcd_byte((bcd / 256) as u8), bcd_byte((bcd % 256) as u8)) {
        (Some(h), Some(m)) => Some(
            if negative {
                -(h * 60 + m)
            } else {
                h * 60 + m
            },
        ),
        _ => None,
    }
}

/// The BCD `HHMM` encoding of `minutes` (by magnitude), if it is under 100 hours.
pub open spec fn hhmm_encode(minutes: int) -> Option<u16> {
    let t = if minutes < 0 {
        -minutes
    } else {
        minutes
    };
    if t / 60 > 99 {
        None
    } else {
        Some((bcd_encode((t / 60) as nat, 2) * 256 + bcd_encode((t % 60) as nat, 2)) as u16)
    }
}

/// The polarity and the two BCD offsets written for two spans given as
/// (negative, zero, whole minutes): `None` when they disagree in sign
/// (zero matches either) or a magnitude is 100 hours or longer.
pub open spec fn offsets_of(local: (bool, bool, int), next: (bool, bool, int)) -> Option<(bool, u16, u16)> {
    if local.0 != next.0 && !local.1 && !next.1 {
        None
    } else {
        match (hhmm_encode(local.2), hhmm_encode(next.2)) {
            (Some(l), Some(n)) => Some((local.0 || next.0, l, n)),
            _ => None,
        }
    }
}

/// Decodes a BCD `HHMM` offset to a signed span (negative when `negative`);
/// `None` if a BCD nibble is out of range.
fn decode_hhmm(bcd: u16, negative: bool) -> (r: Option<chrono::TimeDelta>)
    ensures
        r == match hhmm_minutes(bcd, negative) {
            Some(x) => Some(delta_of_minutes(x)),
            None => None,
        },
{
    proof {
        crate::bcd::lemma_bcd_value_bound((bcd / 256) as nat, 2);
        crate::bcd::lemma_bcd_value_bound((bcd % 256) as nat, 2);
        reveal_with_fuel(crate::bcd::pow10, 3);
    }
    let h = match from_bcd_byte((bcd / 256) as u8) {
        Some(h) => h,
        None => return None,
    };
    let m = match from_bcd_byte((bcd % 256) as u8) {
        Some(m) => m,
        None => return None,
    };
    let mins: i64 = h as i64 * 60 + m as i64;
    Some(minutes_delta(if negative { -mins } else { mins }))
}

/// Encodes a span's whole minutes as BCD `HHMM` by magnitude; `None` if it
/// is 100 hours or longer.
fn encode_hhmm(minutes: i64) -> (r: Option<u16>)
    ensures
        r == hhmm_encode(minutes as int),
{
    let t: u64 = if minutes < 0 {
        (-(minutes + 1)) as u64 + 1
    } else {
        minutes as u64
    };
    let h = t / 60;
    let m = t % 60;
    if h > 99 {
        return None;
    }
    let hb = match to_bcd_byte(h as u8) {
        Some(b) => b,
        None => return None,
    };
    let mb = match to_bcd_byte(m as u8) {
        Some(b) => b,
        None => return None,
    };
    Some(hb as u16 * 256 + mb as u16)
}

/// The polarity and BCD offsets for two spans given as (negative, zero,
/// whole minutes); `ValueOutOfRange` if they disagree in sign (zero matches
/// either) or a magnitude is 100 hours or longer.
pub fn encode_offsets(local: (bool, bool, i64), next: (bool, bool, i64)) -> (r: Result<(bool, u16, u16), Error>)
    ensures
        r is Ok <==> offsets_of((local.0, local.1, local.2 as int), (next.0, next.1, next.2 as int)) is Some,
        r matches Ok(v) ==> Some(v) == offsets_of((local.0, local.1, local.2 as int), (next.0, next.1, next.2 as int)),
        r matches Err(e) ==> is_out_of_range(e),
{
    if local.0 != next.0 && !local.1 && !next.1 {
        return Err(
            Error::ValueOutOfRange {
                field: "LocalTimeOffsetEntry offsets",
                reason: "local and next offsets must share a sign",
            },
        );
    }
    let lbcd = match encode_hhmm(local.2) {
        Some(b) => b,
        None => return Err(
            Error::ValueOutOfRange { field: "LocalTimeOffsetEntry offsets", reason: "local offset magnitude too large" },
        ),
    };
    let nbcd = match encode_hhmm(next.2) {
        Some(b) => b,
        None => return Err(
            Error::ValueOutOfRange { field: "LocalTimeOffsetEntry offsets", reason: "next offset magnitude too large" },
        ),
    };
    Ok((local.0 || next.0, lbcd, nbcd))
}

impl LocalTimeOffsetEntry {
    /// Decodes `local_time_offset` (BCD `HHMM`, signed by
    /// `local_time_offset_negative`) to a span; `None` if the BCD nibbles are
    /// out of range.
    pub fn local_time_offset(&self) -> (r: Option<chrono::TimeDelta>)
        ensures
            r == match hhmm_minutes(self.local_time_offset_bcd, self.local_time_offset_negative) {
                Some(x) => Some(delta_of_minutes(x)),
                None => None,
            },
    {
        decode_hhmm(self.local_time_offset_bcd, self.local_time_offset_negative)
    }

    /// Decodes `next_time_offset` (BCD `HHMM`) to a span. It shares the single
    /// `local_time_offset_negative` polarity bit. `None` if the BCD nibbles are
    /// out of range.
    pub fn next_time_offset(&self) -> (r: Option<chrono::TimeDelta>)
        ensures
            r == match hhmm_minutes(self.next_time_offset_bcd, self.local_time_offset_negative) {
                Some(x) => Some(delta_of_minutes(x)),
                None => None,
            },
    {
        decode_hhmm(self.next_time_offset_bcd, self.local_time_offset_negative)
    }

    /// Sets both offsets and the shared polarity bit from signed spans. The
    /// wire format carries one polarity bit for both offsets, so `local` and
    /// `next` must share a sign (zero matches either); `ValueOutOfRange`
    /// (leaving `self` unchanged) if they do not or a magnitude is 100 hours
    /// or longer.
    pub fn set_offsets(&mut self, local: chrono::TimeDelta, next: chrono::TimeDelta) -> (r: Result<(), Error>)
        ensures
            ({
                let o = offsets_of(
                    (delta_negative(local), delta_zero(local), delta_minutes(local)),
                    (delta_negative(next), delta_zero(next), delta_minutes(next)),
                );
                &&& r is Ok <==> o is Some
                &&& r is Ok ==> (o matches Some((negative, lbcd, nbcd)) && {
                    &&& final(self).local_time_offset_negative == negative
                    &&& final(self).local_time_offset_bcd == lbcd
                    &&& final(self).next_time_offset_bcd == nbcd
                    &&& final(self).country_code == old(self).country_code
                    &&& final(self).country_region_id == old(self).country_region_id
                    &&& final(self).time_of_change_raw == old(self).time_of_change_raw
                })
                &&& r matches Err(e) ==> is_out_of_range(e) && *final(self) == *old(self)
            }),
    {
        let l = (delta_is_negative(&local), delta_is_zero(&local), delta_num_minutes(&local));
        let n = (delta_is_negative(&next), delta_is_zero(&next), delta_num_minutes(&next));
        let (negative, lbcd, nbcd) = encode_offsets(l, n)?;
        self.local_time_offset_negative = negative;
        self.local_time_offset_bcd = lbcd;
        self.next_time_offset_bcd = nbcd;
        Ok(())
    }
}

/// The 13 bytes of an entry.
pub open spec fn entry_wire() -> spec_fn(LocalTimeOffsetEntry) -> Seq<u8> {
    |e: LocalTimeOffsetEntry| e.wire()
}

/// Local Time Offset Descriptor.
#[derive(Debug, Clone, PartialEq, Eq)]
pub struct LocalTimeOffsetDescriptor {
    /// Entries in wire order.
    pub entries: Vec<LocalTimeOffsetEntry>,
}

impl LocalTimeOffsetDescriptor {
    /// Parsing succeeds on exactly these bytes.
    pub open spec fn bytes_ok(s: Seq<u8>) -> bool {
        header_ok(s, TAG) && s[1] % 13 == 0
    }

    /// The error reported for bytes that do not parse.
    pub open spec fn bytes_error(e: Error, s: Seq<u8>) -> bool {
        if header_ok(s, TAG) {
            is_invalid(e, TAG)
        } else {
            header_error(e, s, TAG)
        }
    }

    /// `self` is what parsing the body `b` yields: one entry per 13 bytes.
    pub open spec fn decodes(&self, b: Seq<u8>) -> bool {
        &&& self.entries@.len() * 13 == b.len()
        &&& forall|i: int|
            0 <= i < self.entries@.len() ==> #[trigger] self.entries@[i].decodes(b.subrange(13 * i, 13 * i + 13))
    }

    /// The body bytes.
    pub open spec fn body_bytes(&self) -> Seq<u8> {
        concat_map(self.entries@, entry_wire())
    }

    /// The complete wire encoding; the length byte holds the body length modulo 256.
    pub open spec fn wire(&self) -> Seq<u8> {
        framed(TAG, self.body_bytes())
    }

    /// Every region id fits its six bits and the body fits its length byte.
    pub open spec fn wf(&self) -> bool {
        &&& forall|i: int| 0 <= i < self.entries@.len() ==> #[trigger] self.entries@[i].country_region_id < 64
        &&& 13 * self.entries@.len() <= 255
    }

    /// The reserved bit of every entry of `s` is one.
    pub open spec fn canonical(s: Seq<u8>) -> bool {
        forall|i: int| 0 <= i < s[1] / 13 ==> (#[trigger] body_of(s)[13 * i + 3] / 2) % 2 == 1
    }

    proof fn lemma_body_len(&self)
        ensures
            self.body_bytes().len() == 13 * self.entries@.len(),
            forall|i: int|
                0 <= i < self.entries@.len() ==> self.body_bytes().subrange(13 * i, 13 * i + 13)
                    == #[trigger] entry_wire()(self.entries@[i]),
    {
        let es = self.entries@;
        assert forall|i: int| 0 <= i < es.len() implies #[trigger] entry_wire()(es[i]).len() == 13 by {}
        lemma_concat_map_fixed(es, entry_wire(), 13);
    }

    /// Parses a local time offset descriptor from the front of `bytes`.
    pub fn parse(bytes: &[u8]) -> (r: Result<Self, Error>)
        ensures
            r is Ok <==> Self::bytes_ok(bytes@),
            r matches Ok(d) ==> d.decodes(body_of(bytes@)),
            r matches Err(e) ==> Self::bytes_error(e, bytes@),
    {
        let body = descriptor_body(
            bytes,
            TAG,
            "LocalTimeOffsetDescriptor",
            "unexpected tag for local_time_offset_descriptor",
        )?;
        if body.len() % ENTRY_LEN != 0 {
            return Err(Error::InvalidDescriptor { tag: TAG, reason: "descriptor_length must be a multiple of 13" });
        }
        let n = body.len() / ENTRY_LEN;
        let mut entries: Vec<LocalTimeOffsetEntry> = Vec::new();
        let mut i: usize = 0;
        while i < n
            invariant
                n * 13 == body.len(),
                i <= n,
                entries@.len() == i,
                forall|j: int| 0 <= j < i ==> #[trigger] entries@[j].decodes(body@.subrange(13 * j, 13 * j + 13)),
            decreases n - i,
        {
            assert(i * 13 + 13 <= n * 13) by (nonlinear_arith)
                requires
                    i < n,
            ;
            let o: usize = i * ENTRY_LEN;
            let country_code = LangCode(read_code(body, o));
            let flags = body[o + 3];
            let e = LocalTimeOffsetEntry {
                country_code,
                country_region_id: flags / 4,
                local_time_offset_negative: flags % 2 == 1,
                local_time_offset_bcd: read_u16(body, o + 4),
                time_of_change_raw: [body[o + 6], body[o + 7], body[o + 8], body[o + 9], body[o + 10]],
                next_time_offset_bcd: read_u16(body, o + 11),
            };
            proof {
                let t = body@.subrange(13 * i, 13 * i + 13);
                assert(t.subrange(0, 3) =~= body@.subrange(o as int, o + 3));
                assert(t.subrange(6, 11) =~= raw_bytes(e.spec_time_of_change_raw()));
                assert(be16(t, 4) == be16(body@, o + 4));
                assert(be16(t, 11) == be16(body@, o + 11));
            }
            entries.push(e);
            i = i + 1;
        }
        Ok(LocalTimeOffsetDescriptor { entries })
    }

    /// Length of the wire encoding.
    pub fn serialized_len(&self) -> (n: usize)
        requires
            self.wire().len() <= usize::MAX,
        ensures
            n == self.wire().len(),
    {
        proof {
            self.lemma_body_len();
        }
        HEADER_LEN + ENTRY_LEN * self.entries.len()
    }

    fn encode(&self) -> (v: Vec<u8>)
        requires
            self.wire().len() <= usize::MAX,
        ensures
            v@ == self.wire(),
    {
        let len = self.serialized_len();
        let mut v: Vec<u8> = Vec::new();
        push_u8(&mut v, TAG);
        push_u8(&mut v, ((len - HEADER_LEN) % 256) as u8);
        let ghost start = v@;
        let mut i: usize = 0;
        while i < self.entries.len()
            invariant
                i <= self.entries@.len(),
                v@ == start + concat_map(self.entries@.subrange(0, i as int), entry_wire()),
            decreases self.entries@.len() - i,
        {
            proof {
                lemma_concat_map_push(self.entries@.subrange(0, i as int), self.entries@[i as int], entry_wire());
                assert(self.entries@.subrange(0, i as int).push(self.entries@[i as int]) =~= self.entries@.subrange(
                    0,
                    i + 1,
                ));
            }
            self.entries[i].push_wire(&mut v);
            i = i + 1;
            assert(v@ =~= start + concat_map(self.entries@.subrange(0, i as int), entry_wire()));
        }
        assert(self.entries@.subrange(0, i as int) =~= self.entries@);
        proof {
            self.lemma_body_len();
        }
        assert(v@ =~= self.wire());
        v
    }

    /// Writes the descriptor to the front of `buf`. The length byte is the
    /// body length truncated to 8 bits.
    pub fn serialize_into(&self, buf: &mut [u8]) -> (r: Result<usize, Error>)
        requires
            self.wire().len() <= usize::MAX,
        ensures
            emitted(r, old(buf)@, final(buf)@, self.wire()),
    {
        let len = self.serialized_len();
        if buf.len() < len {
            return Err(Error::OutputBufferTooSmall { need: len, have: buf.len() });
        }
        let v = self.encode();
        copy_to_front(buf, &v);
        Ok(len)
    }
}

proof fn lemma_entry_encode_parse(e: LocalTimeOffsetEntry)
    requires
        e.country_region_id < 64,
    ensures
        e.decodes(e.wire()),
        (e.wire()[3] / 2) % 2 == 1,
{
    let t = e.wire();
    lemma_be16_of_bytes(e.local_time_offset_bcd);
    lemma_be16_of_bytes(e.next_time_offset_bcd);
    assert(t.subrange(0, 3) =~= code_bytes(e.country_code.0));
    assert(t.subrange(6, 11) =~= raw_bytes(e.spec_time_of_change_raw()));
    assert(be16(t, 4) == be16(u16_bytes(e.local_time_offset_bcd), 0));
    assert(be16(t, 11) == be16(u16_bytes(e.next_time_offset_bcd), 0));
}

proof fn lemma_entry_parse_encode(e: LocalTimeOffsetEntry, t: Seq<u8>)
    requires
        t.len() == 13,
        e.decodes(t),
        (t[3] / 2) % 2 == 1,
    ensures
        e.wire() == t,
        e.country_region_id < 64,
{
    lemma_bytes_of_be16(t, 4);
    lemma_bytes_of_be16(t, 11);
    assert(e.flags_byte() == t[3]);
    assert(e.wire() =~= t);
}

/// Encoding a well-formed local time offset descriptor and parsing the bytes gives it back.
pub proof fn lemma_local_time_offset_encode_parse(d: LocalTimeOffsetDescriptor)
    requires
        d.wf(),
    ensures
        LocalTimeOffsetDescriptor::bytes_ok(d.wire()),
        d.decodes(body_of(d.wire())),
        LocalTimeOffsetDescriptor::canonical(d.wire()),
{
    d.lemma_body_len();
    let b = d.body_bytes();
    lemma_framed_parses(TAG, b);
    let es = d.entries@;
    assert forall|i: int| 0 <= i < es.len() implies #[trigger] es[i].decodes(b.subrange(13 * i, 13 * i + 13)) by {
        assert(entry_wire()(es[i]) == b.subrange(13 * i, 13 * i + 13));
        assert(es[i].country_region_id < 64);
        lemma_entry_encode_parse(es[i]);
    }
    let s = d.wire();
    assert forall|i: int| 0 <= i < s[1] / 13 implies (#[trigger] body_of(s)[13 * i + 3] / 2) % 2 == 1 by {
        assert(s[1] == 13 * es.len());
        assert(i < es.len());
        assert(entry_wire()(es[i]) == b.subrange(13 * i, 13 * i + 13));
        assert(es[i].country_region_id < 64);
        lemma_entry_encode_parse(es[i]);
        assert(body_of(s)[13 * i + 3] == es[i].wire()[3]);
    }
}

/// Parsing a local time offset descriptor whose reserved bits are all ones and
/// encoding the result gives back its bytes.
pub proof fn lemma_local_time_offset_parse_encode(s: Seq<u8>, d: LocalTimeOffsetDescriptor)
    requires
        LocalTimeOffsetDescriptor::bytes_ok(s),
        LocalTimeOffsetDescriptor::canonical(s),
        d.decodes(body_of(s)),
    ensures
        d.wire() == framed_prefix(s),
        d.wf(),
{
    let b = body_of(s);
    let es = d.entries@;
    lemma_reframe(s, TAG);
    assert forall|i: int| 0 <= i < es.len() implies #[trigger] entry_wire()(es[i]) == b.subrange(13 * i, 13 * i + 13)
        && es[i].country_region_id < 64 by {
        let t = b.subrange(13 * i, 13 * i + 13);
        assert(es[i].decodes(t));
        assert(i < s[1] / 13);
        assert(t[3] == body_of(s)[13 * i + 3]);
        lemma_entry_parse_encode(es[i], t);
    }
    lemma_concat_map_blocks(es, entry_wire(), 13, b);
    assert forall|i: int| 0 <= i < es.len() implies #[trigger] es[i].country_region_id < 64 by {
        assert(entry_wire()(es[i]) == b.subrange(13 * i, 13 * i + 13));
    }
}


/// Encoding an offset of under 100 hours as BCD `HHMM` and decoding it with
/// polarity `negative` gives back its magnitude in minutes, signed by `negative`.
pub proof fn lemma_hhmm_round_trip(minutes: int, negative: bool)
    requires
        -6000 < minutes < 6000,
    ensures
        ({
            let t = if minutes < 0 {
                -minutes
            } else {
                minutes
            };
            &&& hhmm_encode(minutes) is Some
            &&& hhmm_minutes(hhmm_encode(minutes)->0, negative) == Some(
                if negative {
                    -t
                } else {
                    t
                },
            )
        }),
{
    let t = if minutes < 0 {
        -minutes
    } else {
        minutes
    };
    let h = (t / 60) as nat;
    let m = (t % 60) as nat;
    reveal_with_fuel(pow10, 3);
    reveal_with_fuel(pow16, 3);
    lemma_bcd_decode_encode(h, 2);
    lemma_bcd_decode_encode(m, 2);
    lemma_bcd_encode_bound(h, 2);
    lemma_bcd_encode_bound(m, 2);
    let hb = bcd_encode(h, 2);
    let mb = bcd_encode(m, 2);
    let b = (hb * 256 + mb) as u16;
    assert(b / 256 == hb && b % 256 == mb);
}

/// A parsed LocalTimeOffsetDescriptor is well formed: it encodes again, and parsing that encoding
/// yields it back.
pub proof fn lemma_local_time_offset_reparse(s: Seq<u8>, d: LocalTimeOffsetDescriptor)
    requires
        LocalTimeOffsetDescriptor::bytes_ok(s),
        d.decodes(body_of(s)),
    ensures
        d.wf(),
        LocalTimeOffsetDescriptor::bytes_ok(d.wire()),
        d.decodes(body_of(d.wire())),
{
    let b = body_of(s);
    let es = d.entries@;
    lemma_reframe(s, TAG);
    assert forall|i: int| 0 <= i < es.len() implies #[trigger] es[i].country_region_id < 64 by {
        let t = b.subrange(13 * i, 13 * i + 13);
        assert(es[i].decodes(t));
    }
    lemma_local_time_offset_encode_parse(d);
}

/// Offsets that `set_offsets` accepts read back as the same whole minutes: for
/// spans whose sign and zero flags agree with their whole minutes (as chrono
/// reports them for a span of whole minutes), the BCD offsets and polarity that
/// `offsets_of` gives decode to exactly those minutes.
pub proof fn lemma_offsets_read_back(local: (bool, bool, int), next: (bool, bool, int))
    requires
        local.0 == (local.2 < 0),
        local.1 == (local.2 == 0),
        next.0 == (next.2 < 0),
        next.1 == (next.2 == 0),
        offsets_of(local, next) is Some,
    ensures
        offsets_of(local, next) matches Some((negative, lbcd, nbcd)) && hhmm_minutes(lbcd, negative) == Some(local.2)
            && hhmm_minutes(nbcd, negative) == Some(next.2),
{
    let negative = local.0 || next.0;
    lemma_hhmm_round_trip(local.2, negative);
    lemma_hhmm_round_trip(next.2, negative);
}

/// Parsing, encoding and parsing again gives the same value: whatever parses
/// from the encoding of a parsed LocalTimeOffsetDescriptor holds the same
/// entries.
pub proof fn lemma_local_time_offset_round_trip(s: Seq<u8>, d: LocalTimeOffsetDescriptor, d2: LocalTimeOffsetDescriptor)
    requires
        LocalTimeOffsetDescriptor::bytes_ok(s),
        d.decodes(body_of(s)),
        d2.decodes(body_of(d.wire())),
    ensures
        d2.entries@ == d.entries@,
{
    lemma_local_time_offset_reparse(s, d);
    let w = body_of(d.wire());
    assert forall|i: int| 0 <= i < d.entries@.len() implies d2.entries@[i] == d.entries@[i] by {
        let t = w.subrange(13 * i, 13 * i + 13);
        let a = d2.entries@[i];
        let b = d.entries@[i];
        assert(a.decodes(t) && b.decodes(t));
        crate::wire::lemma_code_bytes_injective(a.country_code.0, b.country_code.0);
        let (x, y) = (a.time_of_change_raw, b.time_of_change_raw);
        assert(raw_bytes(x)[0] == raw_bytes(y)[0] && raw_bytes(x)[1] == raw_bytes(y)[1] && raw_bytes(x)[2]
            == raw_bytes(y)[2] && raw_bytes(x)[3] == raw_bytes(y)[3] && raw_bytes(x)[4] == raw_bytes(y)[4]);
        assert(x =~= y);
    }
    assert(d2.entries@ =~= d.entries@);
}

} // verus!
