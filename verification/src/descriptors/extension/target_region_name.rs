//! Target Region Name Descriptor — ETSI EN 300 468 §6.4.13 (tag_extension 0x0A).

use super::ExtensionBodyDef;
use super::{invalid, ISO_639_LEN};
use crate::error::{is_invalid, Error};
use crate::runs::{
    lemma_run_of_encoded, lemma_run_push, lemma_run_reencodes, lemma_run_step, len_stable, run_all,
    run_decodes, run_ok,
};
use crate::text::{DvbText, LangCode};
use crate::wire::{
    be16, code_bytes, concat_map, lemma_be16_of_bytes, lemma_bytes_of_be16, lemma_concat_map_prefix_len,
    lemma_concat_map_push, push_bytes, push_code, push_u16, push_u8, read_code, read_u16, u16_bytes,
};
use crate::descriptors::emitted;
use crate::wire::copy_to_front;
use vstd::prelude::*;

verus! {

impl ExtensionBodyDef for TargetRegionName<'_> {
    const TAG_EXTENSION: u8 = 0x0A;
    const NAME: &'static str = "TARGET_REGION_NAME";
}

/// target_region_name body (Table 157).
#[derive(Debug, Clone, PartialEq, Eq)]
pub struct TargetRegionName<'a> {
    /// country_code(24).
    pub country_code: LangCode,
    /// ISO_639_language_code(24).
    pub iso_639_language_code: LangCode,
    /// Region entries in wire order.
    pub regions: Vec<TargetRegionNameEntry<'a>>,
}

/// One region entry of the target_region_name loop.
#[derive(Debug, Clone, PartialEq, Eq)]
pub struct TargetRegionNameEntry<'a> {
    /// region_depth(2).
    pub region_depth: u8,
    /// region_name (region_name_length(6) bytes).
    pub region_name: DvbText<'a>,
    /// primary_region_code(8).
    pub primary_region_code: u8,
    /// secondary_region_code(8), present iff region_depth >= 2.
    pub secondary_region_code: Option<u8>,
    /// tertiary_region_code(16), present iff region_depth == 3.
    pub tertiary_region_code: Option<u16>,
}

/// Size of the region entry at the front of `t`, read from its first byte.
pub open spec fn trn_entry_len(t: Seq<u8>) -> int {
    if t.len() == 0 {
        0
    } else {
        let d = t[0] >> 6u8;
        1 + (t[0] & 0x3F) + 1 + (if d >= 2 { 1int } else { 0int }) + (if d == 3 { 2int } else { 0int })
    }
}

pub open spec fn trn_len_fn() -> spec_fn(Seq<u8>) -> int {
    |t: Seq<u8>| trn_entry_len(t)
}

pub open spec fn trn_dec_fn<'a>() -> spec_fn(TargetRegionNameEntry<'a>, Seq<u8>) -> bool {
    |e: TargetRegionNameEntry<'a>, t: Seq<u8>| t.len() >= 1 && trn_entry_len(t) == t.len() && e.decodes(t)
}

pub open spec fn trn_enc_fn<'a>() -> spec_fn(TargetRegionNameEntry<'a>) -> Seq<u8> {
    |e: TargetRegionNameEntry<'a>| e.wire()
}

pub open spec fn trn_canon_fn() -> spec_fn(Seq<u8>) -> bool {
    |t: Seq<u8>| true
}

pub open spec fn trn_good_fn<'a>() -> spec_fn(TargetRegionNameEntry<'a>) -> bool {
    |e: TargetRegionNameEntry<'a>| e.wf()
}

pub proof fn lemma_trn_len_stable()
    ensures
        len_stable(trn_len_fn()),
{
    assert forall|a: Seq<u8>, b: Seq<u8>|
        0 < trn_len_fn()(a) <= a.len() implies #[trigger] trn_len_fn()(a + b) == trn_len_fn()(a) by {
        assert((a + b)[0] == a[0]);
    }
}

proof fn lemma_trn_bits(f: u8, d: u8, n: u8)
    by (bit_vector)
    requires
        d < 4,
        n < 64,
    ensures
        (((d & 0x03) << 6u8) | (n & 0x3F)) >> 6u8 == d,
        (((d & 0x03) << 6u8) | (n & 0x3F)) & 0x3F == n,
        (((f >> 6u8) & 0x03) << 6u8) | ((f & 0x3F) & 0x3F) == f,
        f >> 6u8 < 4,
        f & 0x3F < 64,
{
}

impl<'a> TargetRegionNameEntry<'a> {
    /// Offset of the primary region code in the entry bytes `t`.
    pub open spec fn codes_start(t: Seq<u8>) -> int {
        1 + (t[0] & 0x3F)
    }

    /// `self` is what parsing the entry bytes `t` yields.
    pub open spec fn decodes(&self, t: Seq<u8>) -> bool {
        let p = Self::codes_start(t);
        let d = t[0] >> 6u8;
        &&& self.region_depth == d
        &&& self.region_name@ == t.subrange(1, p)
        &&& self.primary_region_code == t[p]
        &&& if d >= 2 {
            self.secondary_region_code == Some(t[p + 1])
        } else {
            self.secondary_region_code is None
        }
        &&& if d == 3 {
            self.tertiary_region_code == Some(be16(t, p + 2) as u16)
        } else {
            self.tertiary_region_code is None
        }
    }

    /// The entry bytes written by serialization.
    pub open spec fn wire(&self) -> Seq<u8> {
        seq![((self.region_depth & 0x03) << 6u8) | (((self.region_name@.len() % 256) as u8) & 0x3F)] + self.region_name@
            + seq![self.primary_region_code] + match self.secondary_region_code {
            Some(v) => seq![v],
            None => Seq::empty(),
        } + match self.tertiary_region_code {
            Some(v) => u16_bytes(v),
            None => Seq::empty(),
        }
    }

    /// The depth and name length fit, and the optional codes match the depth.
    pub open spec fn wf(&self) -> bool {
        &&& self.region_depth < 4
        &&& self.region_name@.len() < 64
        &&& (self.secondary_region_code is Some) == (self.region_depth >= 2)
        &&& (self.tertiary_region_code is Some) == (self.region_depth == 3)
    }

    /// Parses the entry at `sel[p..]`, which holds it completely.
    pub fn parse_at(sel: &'a [u8], p: usize) -> (e: Self)
        requires
            p < sel.len(),
            p + trn_entry_len(sel@.subrange(p as int, sel@.len() as int)) <= sel.len(),
        ensures
            e.decodes(sel@.subrange(p as int, p + trn_entry_len(sel@.subrange(p as int, sel@.len() as int)))),
    {
        let ghost t = sel@.subrange(p as int, p + trn_entry_len(sel@.subrange(p as int, sel@.len() as int)));
        let byte = sel[p];
        let region_depth = byte >> 6u8;
        let name_length = (byte & 0x3F) as usize;
        let region_name = DvbText::new(&sel[p + 1..p + 1 + name_length]);
        assert(region_name@ =~= t.subrange(1, 1 + name_length));
        let q = p + 1 + name_length;
        let primary_region_code = sel[q];
        let secondary_region_code = if region_depth >= 2 {
            Some(sel[q + 1])
        } else {
            None
        };
        let tertiary_region_code = if region_depth == 3 {
            Some(read_u16(sel, q + 2))
        } else {
            None
        };
        TargetRegionNameEntry {
            region_depth,
            region_name,
            primary_region_code,
            secondary_region_code,
            tertiary_region_code,
        }
    }

    /// Appends the entry bytes to `out`.
    pub fn write_to(&self, out: &mut Vec<u8>)
        ensures
            final(out)@ == old(out)@ + self.wire(),
    {
        let raw = self.region_name.raw();
        push_u8(out, ((self.region_depth & 0x03) << 6u8) | (((raw.len() % 256) as u8) & 0x3F));
        push_bytes(out, raw);
        push_u8(out, self.primary_region_code);
        match self.secondary_region_code {
            Some(v) => push_u8(out, v),
            None => {},
        }
        match self.tertiary_region_code {
            Some(v) => push_u16(out, v),
            None => {},
        }
        assert(out@ =~= old(out)@ + self.wire());
    }
}

proof fn lemma_trn_entry_encode_parse(e: TargetRegionNameEntry)
    requires
        e.wf(),
    ensures
        0 < trn_entry_len(e.wire()) == e.wire().len(),
        e.decodes(e.wire()),
{
    let w = e.wire();
    let n = e.region_name@.len();
    lemma_trn_bits(0, e.region_depth, n as u8);
    let p: int = 1 + n as int;
    assert(w.subrange(1, p) =~= e.region_name@);
    match e.tertiary_region_code {
        Some(v) => {
            lemma_be16_of_bytes(v);
            assert(w.subrange(p + 2, p + 4) =~= u16_bytes(v));
        },
        None => {},
    }
}

proof fn lemma_trn_entry_parse_encode(t: Seq<u8>, e: TargetRegionNameEntry)
    requires
        t.len() >= 1,
        trn_entry_len(t) == t.len(),
        e.decodes(t),
    ensures
        e.wire() == t,
        e.wf(),
{
    lemma_trn_bits(t[0], 0, 0);
    let p = TargetRegionNameEntry::codes_start(t);
    assert(e.region_name@.len() == t[0] & 0x3F);
    assert(((e.region_name@.len() % 256) as u8) == t[0] & 0x3F);
    if t[0] >> 6u8 == 3 {
        lemma_bytes_of_be16(t, p + 2);
    }
    assert(e.wire() =~= t);
}

impl<'a> TargetRegionName<'a> {
    /// The region loop bytes of the selector `s`.
    pub open spec fn loop_bytes(s: Seq<u8>) -> Seq<u8> {
        s.subrange(6, s.len() as int)
    }

    /// Parsing succeeds on exactly these selector bytes.
    pub open spec fn sel_ok(s: Seq<u8>) -> bool {
        s.len() >= 6 && run_ok(Self::loop_bytes(s), trn_len_fn())
    }

    /// The error reported for selector bytes that do not parse.
    pub open spec fn sel_error(e: Error, s: Seq<u8>) -> bool {
        is_invalid(e, super::TAG)
    }

    /// Every accepted selector byte run is canonical.
    pub open spec fn canonical(s: Seq<u8>) -> bool {
        true
    }

    /// `self` is what parsing the selector bytes `s` yields.
    pub open spec fn decodes(&self, s: Seq<u8>) -> bool {
        &&& code_bytes(self.country_code.0) == s.subrange(0, 3)
        &&& code_bytes(self.iso_639_language_code.0) == s.subrange(3, 6)
        &&& run_decodes(self.regions@, Self::loop_bytes(s), trn_len_fn(), trn_dec_fn())
    }

    /// The selector bytes written by `serialize_into`.
    pub open spec fn wire(&self) -> Seq<u8> {
        code_bytes(self.country_code.0) + code_bytes(self.iso_639_language_code.0) + concat_map(
            self.regions@,
            trn_enc_fn(),
        )
    }

    /// Every region entry is well formed.
    pub open spec fn wf(&self) -> bool {
        forall|i: int| 0 <= i < self.regions@.len() ==> #[trigger] self.regions@[i].wf()
    }

    /// Parses the target_region_name body.
    pub fn parse(sel: &'a [u8]) -> (r: Result<Self, Error>)
        ensures
            r is Ok <==> Self::sel_ok(sel@),
            r matches Ok(d) ==> d.decodes(sel@),
            r matches Err(e) ==> Self::sel_error(e, sel@),
    {
        if sel.len() < 2 * ISO_639_LEN {
            return Err(invalid("target_region_name: header truncated"));
        }
        let country_code = LangCode(read_code(sel, 0));
        let iso_639_language_code = LangCode(read_code(sel, 3));
        let ghost b = Self::loop_bytes(sel@);
        proof {
            lemma_trn_len_stable();
            assert(b.subrange(0, 0) =~= Seq::<u8>::empty());
            assert(b.subrange(0, b.len() as int) =~= b);
        }
        let mut pos: usize = 6;
        let mut regions: Vec<TargetRegionNameEntry<'a>> = Vec::new();
        while pos < sel.len()
            invariant
                6 <= pos <= sel.len(),
                b == Self::loop_bytes(sel@),
                len_stable(trn_len_fn()),
                run_ok(b, trn_len_fn()) == run_ok(b.subrange(pos - 6, b.len() as int), trn_len_fn()),
                run_decodes(regions@, b.subrange(0, pos - 6), trn_len_fn(), trn_dec_fn()),
            decreases sel.len() - pos,
        {
            let ghost t = b.subrange(pos - 6, b.len() as int);
            assert(t =~= sel@.subrange(pos as int, sel@.len() as int));
            let byte = sel[pos];
            let d = byte >> 6u8;
            let sec: usize = if d >= 2 {
                1
            } else {
                0
            };
            let ter: usize = if d == 3 {
                2
            } else {
                0
            };
            let need = 1 + (byte & 0x3F) as usize + 1 + sec + ter;
            assert(need == trn_entry_len(t));
            if sel.len() - pos < need {
                return Err(invalid("target_region_name: region entry overruns body"));
            }
            let e = TargetRegionNameEntry::parse_at(sel, pos);
            proof {
                lemma_run_step(b, pos - 6, trn_len_fn());
                let et = b.subrange(pos - 6, pos - 6 + need);
                assert(et =~= sel@.subrange(pos as int, pos + need));
                assert(trn_len_fn()(et) == need) by {
                    assert(et[0] == t[0]);
                }
                lemma_run_push(regions@, b.subrange(0, pos - 6), e, et, trn_len_fn(), trn_dec_fn());
                assert(b.subrange(0, pos - 6) + et =~= b.subrange(0, pos - 6 + need));
            }
            regions.push(e);
            pos = pos + need;
        }
        proof {
            assert(b.subrange(0, pos - 6) =~= b);
        }
        Ok(TargetRegionName { country_code, iso_639_language_code, regions })
    }

    /// Length of the selector bytes.
    pub fn serialized_len(&self) -> (n: usize)
        requires
            self.wire().len() <= usize::MAX,
        ensures
            n == self.wire().len(),
    {
        let mut total: usize = 2 * ISO_639_LEN;
        let mut i: usize = 0;
        while i < self.regions.len()
            invariant
                i <= self.regions@.len(),
                self.wire().len() <= usize::MAX,
                total == 6 + concat_map(self.regions@.subrange(0, i as int), trn_enc_fn()).len(),
            decreases self.regions@.len() - i,
        {
            proof {
                lemma_concat_map_push(self.regions@.subrange(0, i as int), self.regions@[i as int], trn_enc_fn());
                assert(self.regions@.subrange(0, i as int).push(self.regions@[i as int]) =~= self.regions@.subrange(0, i + 1));
                lemma_concat_map_prefix_len(self.regions@, i + 1, trn_enc_fn());
            }
            let r = &self.regions[i];
            let sec: usize = if r.secondary_region_code.is_some() {
                1
            } else {
                0
            };
            let ter: usize = if r.tertiary_region_code.is_some() {
                2
            } else {
                0
            };
            total = total + 1 + r.region_name.len() + 1 + sec + ter;
            i = i + 1;
        }
        assert(self.regions@.subrange(0, i as int) =~= self.regions@);
        total
    }

    /// Writes the selector bytes to the front of `buf`.
    pub fn serialize_into(&self, buf: &mut [u8]) -> (r: Result<usize, Error>)
        requires
            self.wire().len() <= usize::MAX,
        ensures
            emitted(r, old(buf)@, final(buf)@, self.wire()),
    {
        let len = self.serialized_len();
        if buf.len() < len {
            return Err(Error::OutputBufferTooSmall { need: len, have: buf.len() });
        }
        let mut v: Vec<u8> = Vec::new();
        self.write_to(&mut v);
        copy_to_front(buf, &v);
        Ok(len)
    }

    /// Appends the selector bytes to `out`.
    pub fn write_to(&self, out: &mut Vec<u8>)
        ensures
            final(out)@ == old(out)@ + self.wire(),
    {
        push_code(out, self.country_code.0);
        push_code(out, self.iso_639_language_code.0);
        let ghost start = out@;
        let mut i: usize = 0;
        while i < self.regions.len()
            invariant
                i <= self.regions@.len(),
                out@ == start + concat_map(self.regions@.subrange(0, i as int), trn_enc_fn()),
            decreases self.regions@.len() - i,
        {
            proof {
                lemma_concat_map_push(self.regions@.subrange(0, i as int), self.regions@[i as int], trn_enc_fn());
                assert(self.regions@.subrange(0, i as int).push(self.regions@[i as int]) =~= self.regions@.subrange(0, i + 1));
            }
            self.regions[i].write_to(out);
            i = i + 1;
            assert(out@ =~= start + concat_map(self.regions@.subrange(0, i as int), trn_enc_fn()));
        }
        assert(self.regions@.subrange(0, i as int) =~= self.regions@);
        assert(out@ =~= old(out)@ + self.wire());
    }
}

/// Encoding then parsing a well-formed target_region_name body gives it back.
pub proof fn lemma_target_region_name_encode_parse(d: TargetRegionName)
    requires
        d.wf(),
    ensures
        TargetRegionName::sel_ok(d.wire()),
        d.decodes(d.wire()),
{
    let w = d.wire();
    lemma_trn_len_stable();
    let es = d.regions@;
    assert forall|i: int| 0 <= i < es.len() implies 0 < trn_len_fn()(#[trigger] trn_enc_fn()(es[i]))
        == trn_enc_fn()(es[i]).len() && trn_dec_fn()(es[i], trn_enc_fn()(es[i])) by {
        assert(es[i].wf());
        lemma_trn_entry_encode_parse(es[i]);
    }
    lemma_run_of_encoded(es, trn_len_fn(), trn_dec_fn(), trn_enc_fn());
    assert(TargetRegionName::loop_bytes(w) =~= concat_map(es, trn_enc_fn()));
    assert(w.subrange(0, 3) =~= code_bytes(d.country_code.0));
    assert(w.subrange(3, 6) =~= code_bytes(d.iso_639_language_code.0));
}

/// Parsing then encoding target_region_name bytes gives them back.
pub proof fn lemma_target_region_name_parse_encode(s: Seq<u8>, d: TargetRegionName)
    requires
        TargetRegionName::sel_ok(s),
        d.decodes(s),
    ensures
        d.wire() == s,
        d.wf(),
{
    let b = TargetRegionName::loop_bytes(s);
    assert forall|e: TargetRegionNameEntry, t: Seq<u8>| #[trigger] trn_dec_fn()(e, t) && trn_canon_fn()(t) implies trn_enc_fn()(e)
        == t && trn_good_fn()(e) by {
        lemma_trn_entry_parse_encode(t, e);
    }
    lemma_run_all_true(b);
    lemma_run_reencodes(d.regions@, b, trn_len_fn(), trn_dec_fn(), trn_enc_fn(), trn_canon_fn(), trn_good_fn());
    assert(d.wire() =~= s);
    assert forall|i: int| 0 <= i < d.regions@.len() implies #[trigger] d.regions@[i].wf() by {
        assert(trn_good_fn()(d.regions@[i]));
    }
}

proof fn lemma_run_all_true(b: Seq<u8>)
    requires
        run_ok(b, trn_len_fn()),
    ensures
        run_all(b, trn_len_fn(), trn_canon_fn()),
    decreases b.len(),
{
    if b.len() > 0 {
        lemma_run_all_true(b.subrange(trn_entry_len(b), b.len() as int));
    }
}

/// A parsed TargetRegionName is well formed: it encodes again, and parsing that encoding
/// yields it back.
pub proof fn lemma_target_region_name_reparse(s: Seq<u8>, d: TargetRegionName)
    requires
        TargetRegionName::sel_ok(s),
        d.decodes(s),
    ensures
        d.wf(),
        TargetRegionName::sel_ok(d.wire()),
        d.decodes(d.wire()),
        d.wire().len() <= s.len(),
{
    lemma_target_region_name_parse_encode(s, d);
    lemma_target_region_name_encode_parse(d);
}

} // verus!
