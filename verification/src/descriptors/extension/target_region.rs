//! Target Region Descriptor — ETSI EN 300 468 §6.4.12 (tag_extension 0x09).

use super::ExtensionBodyDef;
use super::{invalid, ISO_639_LEN};
use crate::error::{is_invalid, Error};
use crate::runs::{
    lemma_run_of_encoded, lemma_run_push, lemma_run_decodes_same, lemma_run_reencodes, lemma_run_relength, lemma_run_step, len_stable, run_all,
    run_decodes, run_ok,
};
use crate::text::LangCode;
use crate::wire::{
    be16, bit, code_bytes, concat_map, lemma_be16_of_bytes, lemma_bytes_of_be16, lemma_concat_map_prefix_len,
    lemma_concat_map_push, push_code, push_u16, push_u8, read_code, read_u16, u16_bytes,
};
use crate::descriptors::emitted;
use crate::wire::copy_to_front;
use vstd::prelude::*;

verus! {

impl ExtensionBodyDef for TargetRegion {
    const TAG_EXTENSION: u8 = 0x09;
    const NAME: &'static str = "TARGET_REGION";
}

/// target_region body (Table 156).
#[derive(Debug, Clone, PartialEq, Eq)]
pub struct TargetRegion {
    /// country_code(24).
    pub country_code: LangCode,
    /// Region loop entries in wire order.
    pub regions: Vec<TargetRegionEntry>,
}

/// One region entry of the target_region loop.
#[derive(Debug, Clone, PartialEq, Eq)]
pub struct TargetRegionEntry {
    /// Entry-level country_code, present iff `country_code_flag`.
    pub country_code: Option<LangCode>,
    /// The region codes, as deep as `region_depth` says.
    pub region_codes: RegionCodes,
}

/// Region codes of one entry, by `region_depth`.
#[derive(Debug, Clone, PartialEq, Eq)]
pub enum RegionCodes {
    /// region_depth = 0.
    NoRegion,
    /// region_depth = 1.
    Primary {
        /// primary_region_code(8).
        primary_region_code: u8,
    },
    /// region_depth = 2.
    PrimarySecondary {
        /// primary_region_code(8).
        primary_region_code: u8,
        /// secondary_region_code(8).
        secondary_region_code: u8,
    },
    /// region_depth = 3.
    Full {
        /// primary_region_code(8).
        primary_region_code: u8,
        /// secondary_region_code(8).
        secondary_region_code: u8,
        /// tertiary_region_code(16).
        tertiary_region_code: u16,
    },
}

/// Size of the region entry at the front of `t`, read from its flags byte.
pub open spec fn tr_entry_len(t: Seq<u8>) -> int {
    if t.len() == 0 {
        0
    } else {
        let d = t[0] & 0x03;
        1 + (if (t[0] >> 2u8) & 0x01 == 1 { 3int } else { 0int }) + (if d == 0 {
            0int
        } else if d == 1 {
            1int
        } else if d == 2 {
            2int
        } else {
            4int
        })
    }
}

pub open spec fn tr_len_fn() -> spec_fn(Seq<u8>) -> int {
    |t: Seq<u8>| tr_entry_len(t)
}

pub open spec fn tr_dec_fn() -> spec_fn(TargetRegionEntry, Seq<u8>) -> bool {
    |e: TargetRegionEntry, t: Seq<u8>| t.len() >= 1 && tr_entry_len(t) == t.len() && e.decodes(t)
}

pub open spec fn tr_enc_fn() -> spec_fn(TargetRegionEntry) -> Seq<u8> {
    |e: TargetRegionEntry| e.wire()
}

pub open spec fn tr_canon_fn() -> spec_fn(Seq<u8>) -> bool {
    |t: Seq<u8>| t[0] & 0xF8 == 0xF8
}

pub open spec fn tr_good_fn() -> spec_fn(TargetRegionEntry) -> bool {
    |e: TargetRegionEntry| true
}

pub proof fn lemma_tr_len_stable()
    ensures
        len_stable(tr_len_fn()),
{
    assert forall|a: Seq<u8>, b: Seq<u8>|
        0 < tr_len_fn()(a) <= a.len() implies #[trigger] tr_len_fn()(a + b) == tr_len_fn()(a) by {
        assert((a + b)[0] == a[0]);
    }
}

proof fn lemma_tr_bits(f: u8, c: u8, d: u8)
    by (bit_vector)
    requires
        c <= 1,
        d < 4,
    ensures
        (((0xF8u8 | (c << 2u8) | d) >> 2u8) & 0x01) == c,
        ((0xF8u8 | (c << 2u8) | d) & 0x03) == d,
        f & 0xF8 == 0xF8 ==> (0xF8u8 | ((((f >> 2u8) & 0x01)) << 2u8) | (f & 0x03)) == f,
        (f >> 2u8) & 0x01 < 2,
        f & 0x03 < 4,
{
}

impl RegionCodes {
    /// region_depth of these codes.
    pub open spec fn depth(&self) -> u8 {
        match self {
            RegionCodes::NoRegion => 0,
            RegionCodes::Primary { .. } => 1,
            RegionCodes::PrimarySecondary { .. } => 2,
            RegionCodes::Full { .. } => 3,
        }
    }

    /// The region code bytes.
    pub open spec fn wire(&self) -> Seq<u8> {
        match self {
            RegionCodes::NoRegion => Seq::empty(),
            RegionCodes::Primary { primary_region_code } => seq![*primary_region_code],
            RegionCodes::PrimarySecondary { primary_region_code, secondary_region_code } => seq![
                *primary_region_code,
                *secondary_region_code,
            ],
            RegionCodes::Full { primary_region_code, secondary_region_code, tertiary_region_code } => seq![
                *primary_region_code,
                *secondary_region_code,
            ] + u16_bytes(*tertiary_region_code),
        }
    }
}

impl TargetRegionEntry {
    /// Offset of the region codes in the entry bytes `t`.
    pub open spec fn codes_start(t: Seq<u8>) -> int {
        if (t[0] >> 2u8) & 0x01 == 1 {
            4
        } else {
            1
        }
    }

    /// `self` is what parsing the entry bytes `t` yields.
    pub open spec fn decodes(&self, t: Seq<u8>) -> bool {
        let p = Self::codes_start(t);
        let d = t[0] & 0x03;
        &&& if (t[0] >> 2u8) & 0x01 == 1 {
            self.country_code matches Some(c) && code_bytes(c.0) == t.subrange(1, 4)
        } else {
            self.country_code is None
        }
        &&& if d == 0 {
            self.region_codes == RegionCodes::NoRegion
        } else if d == 1 {
            self.region_codes == RegionCodes::Primary { primary_region_code: t[p] }
        } else if d == 2 {
            self.region_codes == RegionCodes::PrimarySecondary {
                primary_region_code: t[p],
                secondary_region_code: t[p + 1],
            }
        } else {
            self.region_codes == RegionCodes::Full {
                primary_region_code: t[p],
                secondary_region_code: t[p + 1],
                tertiary_region_code: be16(t, p + 2) as u16,
            }
        }
    }

    /// The entry bytes written by serialization.
    pub open spec fn wire(&self) -> Seq<u8> {
        seq![0xF8u8 | (bit(self.country_code is Some) << 2u8) | self.region_codes.depth()] + match self.country_code {
            Some(c) => code_bytes(c.0),
            None => Seq::empty(),
        } + self.region_codes.wire()
    }

    /// Parses the entry at `sel[p..]`, which holds it completely.
    pub fn parse_at(sel: &[u8], p: usize) -> (e: Self)
        requires
            p < sel.len(),
            p + tr_entry_len(sel@.subrange(p as int, sel@.len() as int)) <= sel.len(),
        ensures
            e.decodes(sel@.subrange(p as int, p + tr_entry_len(sel@.subrange(p as int, sel@.len() as int)))),
    {
        let ghost t = sel@.subrange(p as int, p + tr_entry_len(sel@.subrange(p as int, sel@.len() as int)));
        let flags = sel[p];
        let mut q = p + 1;
        let country_code = if (flags >> 2u8) & 0x01 == 1 {
            let c = read_code(sel, q);
            q = q + ISO_639_LEN;
            assert(code_bytes(c) =~= t.subrange(1, 4));
            Some(LangCode(c))
        } else {
            None
        };
        let d = flags & 0x03;
        let region_codes = if d == 0 {
            RegionCodes::NoRegion
        } else if d == 1 {
            RegionCodes::Primary { primary_region_code: sel[q] }
        } else if d == 2 {
            RegionCodes::PrimarySecondary { primary_region_code: sel[q], secondary_region_code: sel[q + 1] }
        } else {
            RegionCodes::Full {
                primary_region_code: sel[q],
                secondary_region_code: sel[q + 1],
                tertiary_region_code: read_u16(sel, q + 2),
            }
        };
        TargetRegionEntry { country_code, region_codes }
    }

    /// Appends the entry bytes to `out`.
    pub fn write_to(&self, out: &mut Vec<u8>)
        ensures
            final(out)@ == old(out)@ + self.wire(),
    {
        let depth: u8 = match self.region_codes {
            RegionCodes::NoRegion => 0,
            RegionCodes::Primary { .. } => 1,
            RegionCodes::PrimarySecondary { .. } => 2,
            RegionCodes::Full { .. } => 3,
        };
        let cf: u8 = if self.country_code.is_some() {
            1
        } else {
            0
        };
        push_u8(out, 0xF8u8 | (cf << 2u8) | depth);
        match self.country_code {
            Some(c) => push_code(out, c.0),
            None => {},
        }
        match self.region_codes {
            RegionCodes::NoRegion => {},
            RegionCodes::Primary { primary_region_code } => push_u8(out, primary_region_code),
            RegionCodes::PrimarySecondary { primary_region_code, secondary_region_code } => {
                push_u8(out, primary_region_code);
                push_u8(out, secondary_region_code);
            },
            RegionCodes::Full { primary_region_code, secondary_region_code, tertiary_region_code } => {
                push_u8(out, primary_region_code);
                push_u8(out, secondary_region_code);
                push_u16(out, tertiary_region_code);
            },
        }
        assert(out@ =~= old(out)@ + self.wire());
    }
}

proof fn lemma_tr_entry_encode_parse(e: TargetRegionEntry)
    ensures
        0 < tr_entry_len(e.wire()) == e.wire().len(),
        e.decodes(e.wire()),
{
    let w = e.wire();
    lemma_tr_bits(0, bit(e.country_code is Some), e.region_codes.depth());
    let p: int = if e.country_code is Some { 4 } else { 1 };
    match e.country_code {
        Some(c) => {
            assert(w.subrange(1, 4) =~= code_bytes(c.0));
        },
        None => {},
    }
    match e.region_codes {
        RegionCodes::Full { primary_region_code, secondary_region_code, tertiary_region_code } => {
            lemma_be16_of_bytes(tertiary_region_code);
            assert(w.subrange(p + 2, p + 4) =~= u16_bytes(tertiary_region_code));
        },
        _ => {},
    }
}

proof fn lemma_tr_entry_parse_encode(t: Seq<u8>, e: TargetRegionEntry)
    requires
        t.len() >= 1,
        tr_entry_len(t) == t.len(),
        e.decodes(t),
        t[0] & 0xF8 == 0xF8,
    ensures
        e.wire() == t,
{
    lemma_tr_bits(t[0], 0, 0);
    let p = TargetRegionEntry::codes_start(t);
    if t[0] & 0x03 == 3 {
        lemma_bytes_of_be16(t, p + 2);
    }
    assert(e.wire() =~= t);
}

impl TargetRegion {
    /// The region loop bytes of the selector `s`.
    pub open spec fn loop_bytes(s: Seq<u8>) -> Seq<u8> {
        s.subrange(3, s.len() as int)
    }

    /// Parsing succeeds on exactly these selector bytes.
    pub open spec fn sel_ok(s: Seq<u8>) -> bool {
        s.len() >= 3 && run_ok(Self::loop_bytes(s), tr_len_fn())
    }

    /// The error reported for selector bytes that do not parse.
    pub open spec fn sel_error(e: Error, s: Seq<u8>) -> bool {
        is_invalid(e, super::TAG)
    }

    /// The reserved bits of every entry are ones.
    pub open spec fn canonical(s: Seq<u8>) -> bool {
        run_all(Self::loop_bytes(s), tr_len_fn(), tr_canon_fn())
    }

    /// `self` is what parsing the selector bytes `s` yields.
    pub open spec fn decodes(&self, s: Seq<u8>) -> bool {
        &&& code_bytes(self.country_code.0) == s.subrange(0, 3)
        &&& run_decodes(self.regions@, Self::loop_bytes(s), tr_len_fn(), tr_dec_fn())
    }

    /// The selector bytes written by `serialize_into`.
    pub open spec fn wire(&self) -> Seq<u8> {
        code_bytes(self.country_code.0) + concat_map(self.regions@, tr_enc_fn())
    }

    /// Parses the target_region body.
    pub fn parse(sel: &[u8]) -> (r: Result<Self, Error>)
        ensures
            r is Ok <==> Self::sel_ok(sel@),
            r matches Ok(d) ==> d.decodes(sel@),
            r matches Err(e) ==> Self::sel_error(e, sel@),
    {
        if sel.len() < ISO_639_LEN {
            return Err(invalid("target_region: country_code truncated"));
        }
        let country_code = LangCode(read_code(sel, 0));
        let ghost b = Self::loop_bytes(sel@);
        proof {
            lemma_tr_len_stable();
            assert(b.subrange(0, 0) =~= Seq::<u8>::empty());
            assert(b.subrange(0, b.len() as int) =~= b);
        }
        let mut pos: usize = 3;
        let mut regions: Vec<TargetRegionEntry> = Vec::new();
        while pos < sel.len()
            invariant
                3 <= pos <= sel.len(),
                b == Self::loop_bytes(sel@),
                len_stable(tr_len_fn()),
                run_ok(b, tr_len_fn()) == run_ok(b.subrange(pos - 3, b.len() as int), tr_len_fn()),
                run_decodes(regions@, b.subrange(0, pos - 3), tr_len_fn(), tr_dec_fn()),
            decreases sel.len() - pos,
        {
            let ghost t = b.subrange(pos - 3, b.len() as int);
            assert(t =~= sel@.subrange(pos as int, sel@.len() as int));
            let flags = sel[pos];
            let d = flags & 0x03;
            let cc: usize = if (flags >> 2u8) & 0x01 == 1 {
                3
            } else {
                0
            };
            let codes: usize = if d == 0 {
                0
            } else if d == 1 {
                1
            } else if d == 2 {
                2
            } else {
                4
            };
            let need = 1 + cc + codes;
            assert(need == tr_entry_len(t));
            if sel.len() - pos < need {
                return Err(invalid("target_region: region entry overruns body"));
            }
            let e = TargetRegionEntry::parse_at(sel, pos);
            proof {
                lemma_run_step(b, pos - 3, tr_len_fn());
                let et = b.subrange(pos - 3, pos - 3 + need);
                assert(et =~= sel@.subrange(pos as int, pos + need));
                assert(tr_len_fn()(et) == need) by {
                    assert(et[0] == t[0]);
                }
                lemma_run_push(regions@, b.subrange(0, pos - 3), e, et, tr_len_fn(), tr_dec_fn());
                assert(b.subrange(0, pos - 3) + et =~= b.subrange(0, pos - 3 + need));
            }
            regions.push(e);
            pos = pos + need;
        }
        proof {
            assert(b.subrange(0, pos - 3) =~= b);
        }
        Ok(TargetRegion { country_code, regions })
    }

    /// Length of the selector bytes.
    pub fn serialized_len(&self) -> (n: usize)
        requires
            self.wire().len() <= usize::MAX,
        ensures
            n == self.wire().len(),
    {
        let mut total: usize = ISO_639_LEN;
        let mut i: usize = 0;
        while i < self.regions.len()
            invariant
                i <= self.regions@.len(),
                self.wire().len() <= usize::MAX,
                total == 3 + concat_map(self.regions@.subrange(0, i as int), tr_enc_fn()).len(),
            decreases self.regions@.len() - i,
        {
            proof {
                lemma_concat_map_push(self.regions@.subrange(0, i as int), self.regions@[i as int], tr_enc_fn());
                assert(self.regions@.subrange(0, i as int).push(self.regions@[i as int]) =~= self.regions@.subrange(0, i + 1));
                lemma_concat_map_prefix_len(self.regions@, i + 1, tr_enc_fn());
            }
            let r = &self.regions[i];
            let cc: usize = if r.country_code.is_some() {
                ISO_639_LEN
            } else {
                0
            };
            let codes: usize = match r.region_codes {
                RegionCodes::NoRegion => 0,
                RegionCodes::Primary { .. } => 1,
                RegionCodes::PrimarySecondary { .. } => 2,
                RegionCodes::Full { .. } => 4,
            };
            total = total + 1 + cc + codes;
            i = i + 1;
        }
        assert(self.regions@.subrange(0, i as int) =~= self.regions@);
        total
    }

    /// Writes the selector bytes to the front of `buf`.
    pub fn serialize_into(&self, buf: &mut [u8]) -> (r: Result<usize, Error>)
        requires
            self.wire().len() <= usize::MAX,
        ensures
            emitted(r, old(buf)@, final(buf)@, self.wire()),
    {
        let len = self.serialized_len();
        if buf.len() < len {
            return Err(Error::OutputBufferTooSmall { need: len, have: buf.len() });
        }
        let mut v: Vec<u8> = Vec::new();
        self.write_to(&mut v);
        copy_to_front(buf, &v);
        Ok(len)
    }

    /// Appends the selector bytes to `out`.
    pub fn write_to(&self, out: &mut Vec<u8>)
        ensures
            final(out)@ == old(out)@ + self.wire(),
    {
        push_code(out, self.country_code.0);
        let ghost start = out@;
        let mut i: usize = 0;
        while i < self.regions.len()
            invariant
                i <= self.regions@.len(),
                out@ == start + concat_map(self.regions@.subrange(0, i as int), tr_enc_fn()),
            decreases self.regions@.len() - i,
        {
            proof {
                lemma_concat_map_push(self.regions@.subrange(0, i as int), self.regions@[i as int], tr_enc_fn());
                assert(self.regions@.subrange(0, i as int).push(self.regions@[i as int]) =~= self.regions@.subrange(0, i + 1));
            }
            self.regions[i].write_to(out);
            i = i + 1;
            assert(out@ =~= start + concat_map(self.regions@.subrange(0, i as int), tr_enc_fn()));
        }
        assert(self.regions@.subrange(0, i as int) =~= self.regions@);
        assert(out@ =~= old(out)@ + self.wire());
    }
}

/// Encoding then parsing a target_region body gives it back.
pub proof fn lemma_target_region_encode_parse(d: TargetRegion)
    ensures
        TargetRegion::sel_ok(d.wire()),
        d.decodes(d.wire()),
{
    let w = d.wire();
    lemma_tr_len_stable();
    let es = d.regions@;
    assert forall|i: int| 0 <= i < es.len() implies 0 < tr_len_fn()(#[trigger] tr_enc_fn()(es[i]))
        == tr_enc_fn()(es[i]).len() && tr_dec_fn()(es[i], tr_enc_fn()(es[i])) by {
        lemma_tr_entry_encode_parse(es[i]);
    }
    lemma_run_of_encoded(es, tr_len_fn(), tr_dec_fn(), tr_enc_fn());
    assert(TargetRegion::loop_bytes(w) =~= concat_map(es, tr_enc_fn()));
    assert(w.subrange(0, 3) =~= code_bytes(d.country_code.0));
}

/// Parsing then encoding canonical target_region bytes gives them back.
pub proof fn lemma_target_region_parse_encode(s: Seq<u8>, d: TargetRegion)
    requires
        TargetRegion::sel_ok(s),
        TargetRegion::canonical(s),
        d.decodes(s),
    ensures
        d.wire() == s,
{
    let b = TargetRegion::loop_bytes(s);
    assert forall|e: TargetRegionEntry, t: Seq<u8>| #[trigger] tr_dec_fn()(e, t) && tr_canon_fn()(t) implies tr_enc_fn()(e)
        == t && tr_good_fn()(e) by {
        lemma_tr_entry_parse_encode(t, e);
    }
    lemma_run_reencodes(d.regions@, b, tr_len_fn(), tr_dec_fn(), tr_enc_fn(), tr_canon_fn(), tr_good_fn());
    assert(d.wire() =~= s);
}

proof fn lemma_tr_entry_relength(t: Seq<u8>, e: TargetRegionEntry)
    requires
        t.len() >= 1,
        tr_entry_len(t) == t.len(),
        e.decodes(t),
    ensures
        e.wire().len() == t.len(),
{
    lemma_tr_bits(t[0], 0, 0);
}

/// A parsed TargetRegion encodes again, no longer than the bytes it was parsed
/// from, and parsing that encoding yields it back.
pub proof fn lemma_target_region_reparse(s: Seq<u8>, d: TargetRegion)
    requires
        TargetRegion::sel_ok(s),
        d.decodes(s),
    ensures
        TargetRegion::sel_ok(d.wire()),
        d.decodes(d.wire()),
        d.wire().len() <= s.len(),
{
    assert forall|e: TargetRegionEntry, t: Seq<u8>| #[trigger] tr_dec_fn()(e, t) implies tr_enc_fn()(e).len()
        <= t.len() && tr_good_fn()(e) by {
        lemma_tr_entry_relength(t, e);
    }
    lemma_run_relength(d.regions@, TargetRegion::loop_bytes(s), tr_len_fn(), tr_dec_fn(), tr_enc_fn(), tr_good_fn());
    lemma_target_region_encode_parse(d);
}

pub open spec fn tr_same_fn() -> spec_fn(TargetRegionEntry, TargetRegionEntry) -> bool {
    |a: TargetRegionEntry, b: TargetRegionEntry| a == b
}

/// Parsing, encoding and parsing again gives the same value: whatever parses
/// from the encoding of a parsed TargetRegion holds the same entries and equals
/// it otherwise.
pub proof fn lemma_target_region_round_trip(s: Seq<u8>, d: TargetRegion, d2: TargetRegion)
    requires
        TargetRegion::sel_ok(s),
        d.decodes(s),
        d2.decodes(d.wire()),
    ensures
        d2.regions@ == d.regions@,
        d2 == (TargetRegion { regions: d2.regions, ..d }),
{
    lemma_target_region_reparse(s, d);
    let w = d.wire();
    assert forall|a: TargetRegionEntry, b: TargetRegionEntry, t: Seq<u8>|
        #![trigger tr_dec_fn()(a, t), tr_dec_fn()(b, t)]
        tr_dec_fn()(a, t) && tr_dec_fn()(b, t) implies tr_same_fn()(a, b) by {
        if (t[0] >> 2u8) & 0x01 == 1 {
            crate::wire::lemma_code_bytes_injective(a.country_code.unwrap().0, b.country_code.unwrap().0);
        }
    }
    lemma_run_decodes_same(d2.regions@, d.regions@, TargetRegion::loop_bytes(w), tr_len_fn(), tr_dec_fn(), tr_same_fn());
    assert forall|i: int| 0 <= i < d.regions@.len() implies d2.regions@[i] == d.regions@[i] by {
        assert(tr_same_fn()(d2.regions@[i], d.regions@[i]));
    }
    assert(d2.regions@ =~= d.regions@);
    crate::wire::lemma_code_bytes_injective(d2.country_code.0, d.country_code.0);
}

/// The region codes of a parsed target region entry, by the literal region_depth
/// codes of EN 300 468 (low two bits of the first byte): 0 none, 1 primary, 2
/// primary and secondary, 3 primary, secondary and tertiary; a country code is
/// present exactly when the country_code_flag (bit 2) is set.
pub proof fn lemma_target_region_depth_codes(t: Seq<u8>, e: TargetRegionEntry)
    requires
        e.decodes(t),
    ensures
        t[0] & 0x03 == 0 ==> e.region_codes is NoRegion,
        t[0] & 0x03 == 1 ==> e.region_codes is Primary,
        t[0] & 0x03 == 2 ==> e.region_codes is PrimarySecondary,
        t[0] & 0x03 == 3 ==> e.region_codes is Full,
        (e.country_code is Some) == ((t[0] >> 2u8) & 0x01 == 1),
{
}

} // verus!
