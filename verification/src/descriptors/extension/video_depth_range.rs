//! Video Depth Range Descriptor — ETSI EN 300 468 §6.4.16.1 (tag_extension 0x10).

use super::ExtensionBodyDef;
use super::invalid;
use crate::error::{is_invalid, is_too_short, sat, Error};
use crate::runs::{
    lemma_run_of_encoded, lemma_run_push, lemma_run_reencodes, lemma_run_relength, lemma_run_step, len_stable, run_all,
    run_decodes, run_fail_at, run_ok,
};
use crate::wire::{concat_map, lemma_concat_map_prefix_len, lemma_concat_map_push, push_bytes, push_u8};
use crate::descriptors::emitted;
use crate::wire::copy_to_front;
use vstd::prelude::*;

verus! {

impl ExtensionBodyDef for VideoDepthRange<'_> {
    const TAG_EXTENSION: u8 = 0x10;
    const NAME: &'static str = "VIDEO_DEPTH_RANGE";
}

/// range_type plus range_length.
const VD_RANGE_HDR_LEN: usize = 2;

/// Size of production_disparity_hint_info().
const VD_DISPARITY_LEN: usize = 3;

/// One depth range entry (Table 160 inner loop).
#[derive(Debug, Clone, PartialEq, Eq)]
pub struct DepthRange<'a> {
    /// range_type(8) — Table 161.
    pub range_type: u8,
    /// Body interpreted by `range_type`.
    pub body: DepthRangeBody<'a>,
}

/// Body of a [`DepthRange`], keyed on `range_type` (Table 161).
#[derive(Debug, Clone, PartialEq, Eq)]
pub enum DepthRangeBody<'a> {
    /// `0x00` — production_disparity_hint_info() (Table 162): two 12-bit
    /// two's-complement values packed into 3 bytes.
    ProductionDisparityHint {
        /// video_max_disparity_hint (12 tcimsbf).
        max: i16,
        /// video_min_disparity_hint (12 tcimsbf).
        min: i16,
    },
    /// `0x01` — multi-region SEI present (empty body).
    MultiRegionSei,
    /// Any other `range_type`: raw range_selector bytes.
    Other(&'a [u8]),
}

/// video_depth_range body (Table 160).
#[derive(Debug, Clone, PartialEq, Eq)]
pub struct VideoDepthRange<'a> {
    /// Depth range entries in wire order.
    pub ranges: Vec<DepthRange<'a>>,
}

/// The 12-bit two's-complement value `v` widened to `i16` (bit 11 is the sign).
pub open spec fn sext12_spec(v: u16) -> i16 {
    if v & 0x800 != 0 {
        (v | 0xF000) as i16
    } else {
        v as i16
    }
}

/// Sign-extends a 12-bit two's-complement value to `i16`.
fn sext12(v: u16) -> (r: i16)
    ensures
        r == sext12_spec(v),
{
    if v & 0x800 != 0 {
        (v | 0xF000) as i16
    } else {
        v as i16
    }
}

/// The 12 bits that carry `v` on the wire.
pub open spec fn bits12(v: i16) -> u16 {
    (v as u16) & 0x0FFF
}

/// The three bytes of production_disparity_hint_info().
pub open spec fn disparity_bytes(max: i16, min: i16) -> Seq<u8> {
    seq![
        (bits12(max) >> 4u16) as u8,
        (((bits12(max) & 0x0F) << 4u16) | ((bits12(min) >> 8u16) & 0x0F)) as u8,
        bits12(min) as u8,
    ]
}

proof fn lemma_disparity_bits(b0: u8, b1: u8, b2: u8, max: i16, min: i16)
    by (bit_vector)
    ensures
        -2048 <= max < 2048 && -2048 <= min < 2048 ==> {
            let xb = (max as u16) & 0x0FFF;
            let nb = (min as u16) & 0x0FFF;
            let c0 = (xb >> 4u16) as u8;
            let c1 = (((xb & 0x0F) << 4u16) | ((nb >> 8u16) & 0x0F)) as u8;
            let c2 = nb as u8;
            let x = ((c0 as u16) << 4u16) | ((c1 as u16) >> 4u16);
            let n = (((c1 as u16) & 0x0F) << 8u16) | (c2 as u16);
            (if x & 0x800 != 0 { (x | 0xF000) as i16 } else { x as i16 }) == max && (if n & 0x800 != 0 {
                (n | 0xF000) as i16
            } else {
                n as i16
            }) == min
        },
        ({
            let x = ((b0 as u16) << 4u16) | ((b1 as u16) >> 4u16);
            let n = (((b1 as u16) & 0x0F) << 8u16) | (b2 as u16);
            let mx = if x & 0x800 != 0 { (x | 0xF000) as i16 } else { x as i16 };
            let mn = if n & 0x800 != 0 { (n | 0xF000) as i16 } else { n as i16 };
            let xb = (mx as u16) & 0x0FFF;
            let nb = (mn as u16) & 0x0FFF;
            &&& (xb >> 4u16) as u8 == b0
            &&& (((xb & 0x0F) << 4u16) | ((nb >> 8u16) & 0x0F)) as u8 == b1
            &&& nb as u8 == b2
            &&& -2048 <= mx < 2048
            &&& -2048 <= mn < 2048
        }),
{
}

/// Size of the range entry at the front of `t`; zero for a
/// production_disparity_hint entry too short to hold its three bytes.
pub open spec fn vd_entry_len(t: Seq<u8>) -> int {
    if t.len() < 2 {
        2
    } else if t[0] == 0 && t[1] < 3 && 2 + t[1] <= t.len() {
        0
    } else {
        2 + t[1]
    }
}

pub open spec fn vd_len_fn() -> spec_fn(Seq<u8>) -> int {
    |t: Seq<u8>| vd_entry_len(t)
}

pub open spec fn vd_dec_fn<'a>() -> spec_fn(DepthRange<'a>, Seq<u8>) -> bool {
    |e: DepthRange<'a>, t: Seq<u8>| t.len() >= 2 && vd_entry_len(t) == t.len() && e.decodes(t)
}

pub open spec fn vd_enc_fn<'a>() -> spec_fn(DepthRange<'a>) -> Seq<u8> {
    |e: DepthRange<'a>| e.wire()
}

pub open spec fn vd_canon_fn() -> spec_fn(Seq<u8>) -> bool {
    |t: Seq<u8>| (t[0] == 0 ==> t[1] == 3) && (t[0] == 1 ==> t[1] == 0)
}

pub open spec fn vd_good_fn<'a>() -> spec_fn(DepthRange<'a>) -> bool {
    |e: DepthRange<'a>| e.wf()
}

pub proof fn lemma_vd_len_stable()
    ensures
        len_stable(vd_len_fn()),
{
    assert forall|a: Seq<u8>, b: Seq<u8>|
        0 < vd_len_fn()(a) <= a.len() implies #[trigger] vd_len_fn()(a + b) == vd_len_fn()(a) by {
        assert((a + b)[0] == a[0]);
        assert((a + b)[1] == a[1]);
    }
}

impl<'a> DepthRange<'a> {
    /// `self` is what parsing the entry bytes `t` yields.
    pub open spec fn decodes(&self, t: Seq<u8>) -> bool {
        &&& self.range_type == t[0]
        &&& if t[0] == 0 {
            self.body == DepthRangeBody::ProductionDisparityHint {
                max: sext12_spec(((t[2] as u16) << 4u16) | ((t[3] as u16) >> 4u16)),
                min: sext12_spec((((t[3] as u16) & 0x0F) << 8u16) | (t[4] as u16)),
            }
        } else if t[0] == 1 {
            self.body is MultiRegionSei
        } else {
            self.body matches DepthRangeBody::Other(r) && r@ == t.subrange(2, t.len() as int)
        }
    }

    /// The entry bytes written by serialization.
    pub open spec fn wire(&self) -> Seq<u8> {
        match self.body {
            DepthRangeBody::ProductionDisparityHint { max, min } => seq![self.range_type, 3u8]
                + disparity_bytes(max, min),
            DepthRangeBody::MultiRegionSei => seq![self.range_type, 0u8],
            DepthRangeBody::Other(r) => seq![self.range_type, (r@.len() % 256) as u8] + r@,
        }
    }

    /// The body is the one `range_type` selects, and its values fit the wire.
    pub open spec fn wf(&self) -> bool {
        match self.body {
            DepthRangeBody::ProductionDisparityHint { max, min } => self.range_type == 0 && -2048 <= max
                < 2048 && -2048 <= min < 2048,
            DepthRangeBody::MultiRegionSei => self.range_type == 1,
            DepthRangeBody::Other(r) => self.range_type != 0 && self.range_type != 1 && r@.len() <= 255,
        }
    }

    /// Number of entry bytes.
    fn wire_len(&self) -> (n: usize)
        requires
            self.wire().len() <= usize::MAX,
        ensures
            n == self.wire().len(),
    {
        match &self.body {
            DepthRangeBody::ProductionDisparityHint { .. } => VD_RANGE_HDR_LEN + VD_DISPARITY_LEN,
            DepthRangeBody::MultiRegionSei => VD_RANGE_HDR_LEN,
            DepthRangeBody::Other(s) => VD_RANGE_HDR_LEN + s.len(),
        }
    }

    /// Appends the entry bytes to `out`.
    pub fn write_to(&self, out: &mut Vec<u8>)
        ensures
            final(out)@ == old(out)@ + self.wire(),
    {
        push_u8(out, self.range_type);
        match &self.body {
            DepthRangeBody::ProductionDisparityHint { max, min } => {
                push_u8(out, VD_DISPARITY_LEN as u8);
                let max_bits = (*max as u16) & 0x0FFF;
                let min_bits = (*min as u16) & 0x0FFF;
                push_u8(out, (max_bits >> 4u16) as u8);
                push_u8(out, (((max_bits & 0x0F) << 4u16) | ((min_bits >> 8u16) & 0x0F)) as u8);
                push_u8(out, min_bits as u8);
            },
            DepthRangeBody::MultiRegionSei => {
                push_u8(out, 0);
            },
            DepthRangeBody::Other(s) => {
                push_u8(out, (s.len() % 256) as u8);
                push_bytes(out, s);
            },
        }
        assert(out@ =~= old(out)@ + self.wire());
    }
}

proof fn lemma_vd_entry_encode_parse(e: DepthRange)
    requires
        e.wf(),
    ensures
        2 <= vd_entry_len(e.wire()) == e.wire().len(),
        e.decodes(e.wire()),
{
    let w = e.wire();
    match e.body {
        DepthRangeBody::ProductionDisparityHint { max, min } => {
            lemma_disparity_bits(0, 0, 0, max, min);
        },
        DepthRangeBody::MultiRegionSei => {},
        DepthRangeBody::Other(r) => {
            assert(w.subrange(2, w.len() as int) =~= r@);
        },
    }
}

proof fn lemma_vd_entry_parse_encode(t: Seq<u8>, e: DepthRange)
    requires
        t.len() >= 2,
        vd_entry_len(t) == t.len(),
        e.decodes(t),
        vd_canon_fn()(t),
    ensures
        e.wire() == t,
        e.wf(),
{
    if t[0] == 0 {
        lemma_disparity_bits(t[2], t[3], t[4], 0, 0);
    }
    assert(e.wire() =~= t);
}

proof fn lemma_vd_entry_relength(t: Seq<u8>, e: DepthRange)
    requires
        t.len() >= 2,
        vd_entry_len(t) == t.len(),
        e.decodes(t),
    ensures
        e.wire().len() <= t.len(),
        e.wf(),
{
    if t[0] == 0 {
        lemma_disparity_bits(t[2], t[3], t[4], 0, 0);
    }
}

impl<'a> VideoDepthRange<'a> {
    /// Parsing succeeds on exactly these selector bytes.
    pub open spec fn sel_ok(s: Seq<u8>) -> bool {
        run_ok(s, vd_len_fn())
    }

    /// The error reported for selector bytes that do not parse: it concerns
    /// the first entry that does not fit.
    pub open spec fn sel_error(e: Error, s: Seq<u8>) -> bool {
        let p = run_fail_at(s, vd_len_fn());
        let t = s.subrange(p, s.len() as int);
        if t.len() < 2 {
            is_too_short(e, sat(p + 2), s.len() as int)
        } else if t.len() < 2 + t[1] {
            is_too_short(e, sat(p + 2 + t[1]), s.len() as int)
        } else {
            is_invalid(e, super::TAG)
        }
    }

    /// Every entry's range_length is the size of the body it carries.
    pub open spec fn canonical(s: Seq<u8>) -> bool {
        run_all(s, vd_len_fn(), vd_canon_fn())
    }

    /// `self` is what parsing the selector bytes `s` yields.
    pub open spec fn decodes(&self, s: Seq<u8>) -> bool {
        run_decodes(self.ranges@, s, vd_len_fn(), vd_dec_fn())
    }

    /// The selector bytes written by serialization.
    pub open spec fn wire(&self) -> Seq<u8> {
        concat_map(self.ranges@, vd_enc_fn())
    }

    /// Every entry is well formed.
    pub open spec fn wf(&self) -> bool {
        forall|i: int| 0 <= i < self.ranges@.len() ==> #[trigger] self.ranges@[i].wf()
    }

    /// Parses the video_depth_range body.
    pub fn parse(sel: &'a [u8]) -> (r: Result<Self, Error>)
        ensures
            r is Ok <==> Self::sel_ok(sel@),
            r matches Ok(d) ==> d.decodes(sel@),
            r matches Err(e) ==> Self::sel_error(e, sel@),
    {
        let ghost b = sel@;
        proof {
            lemma_vd_len_stable();
            assert(b.subrange(0, 0) =~= Seq::<u8>::empty());
            assert(b.subrange(0, b.len() as int) =~= b);
        }
        let mut pos: usize = 0;
        let mut ranges: Vec<DepthRange<'a>> = Vec::new();
        while pos < sel.len()
            invariant
                pos <= sel.len(),
                b == sel@,
                len_stable(vd_len_fn()),
                run_ok(b, vd_len_fn()) == run_ok(b.subrange(pos as int, b.len() as int), vd_len_fn()),
                run_fail_at(b, vd_len_fn()) == pos + run_fail_at(b.subrange(pos as int, b.len() as int), vd_len_fn()),
                run_decodes(ranges@, b.subrange(0, pos as int), vd_len_fn(), vd_dec_fn()),
            decreases sel.len() - pos,
        {
            let ghost t = b.subrange(pos as int, b.len() as int);
            if sel.len() - pos < VD_RANGE_HDR_LEN {
                proof {
                    assert(vd_len_fn()(t) > t.len());
                }
                return Err(
                    Error::BufferTooShort { need: pos.saturating_add(VD_RANGE_HDR_LEN), have: sel.len(), what: "video_depth_range body" },
                );
            }
            let range_type = sel[pos];
            let range_length = sel[pos + 1] as usize;
            assert(t[0] == range_type && t[1] == sel[pos + 1]);
            if sel.len() - pos - VD_RANGE_HDR_LEN < range_length {
                proof {
                    assert(vd_len_fn()(t) > t.len());
                }
                return Err(
                    Error::BufferTooShort {
                        need: pos.saturating_add(VD_RANGE_HDR_LEN + range_length),
                        have: sel.len(),
                        what: "video_depth_range body",
                    },
                );
            }
            let p = pos + VD_RANGE_HDR_LEN;
            let body = if range_type == 0 {
                if range_length < VD_DISPARITY_LEN {
                    proof {
                        assert(vd_len_fn()(t) == 0);
                    }
                    return Err(invalid("video_depth_range: production_disparity_hint requires 3+ bytes"));
                }
                let b0 = sel[p];
                let b1 = sel[p + 1];
                let b2 = sel[p + 2];
                let max = sext12(((b0 as u16) << 4u16) | ((b1 as u16) >> 4u16));
                let min = sext12((((b1 as u16) & 0x0F) << 8u16) | (b2 as u16));
                DepthRangeBody::ProductionDisparityHint { max, min }
            } else if range_type == 1 {
                DepthRangeBody::MultiRegionSei
            } else {
                DepthRangeBody::Other(&sel[p..p + range_length])
            };
            let e = DepthRange { range_type, body };
            let need = VD_RANGE_HDR_LEN + range_length;
            proof {
                assert(vd_len_fn()(t) == need);
                lemma_run_step(b, pos as int, vd_len_fn());
                let et = b.subrange(pos as int, pos + need);
                assert(vd_len_fn()(et) == need) by {
                    assert(et[0] == t[0]);
                    assert(et[1] == t[1]);
                }
                assert(e.decodes(et)) by {
                    assert(et[0] == range_type);
                    if range_type == 0 {
                        assert(et[2] == sel@[p as int]);
                        assert(et[3] == sel@[p + 1]);
                        assert(et[4] == sel@[p + 2]);
                    } else if range_type != 1 {
                        assert(et.subrange(2, et.len() as int) =~= sel@.subrange(p as int, p + range_length));
                    }
                }
                lemma_run_push(ranges@, b.subrange(0, pos as int), e, et, vd_len_fn(), vd_dec_fn());
                assert(b.subrange(0, pos as int) + et =~= b.subrange(0, pos + need));
            }
            ranges.push(e);
            pos = pos + need;
        }
        proof {
            assert(b.subrange(0, pos as int) =~= b);
        }
        Ok(VideoDepthRange { ranges })
    }

    /// Length of the selector bytes.
    pub fn serialized_len(&self) -> (n: usize)
        requires
            self.wire().len() <= usize::MAX,
        ensures
            n == self.wire().len(),
    {
        let mut total: usize = 0;
        let mut i: usize = 0;
        while i < self.ranges.len()
            invariant
                i <= self.ranges@.len(),
                self.wire().len() <= usize::MAX,
                total == concat_map(self.ranges@.subrange(0, i as int), vd_enc_fn()).len(),
            decreases self.ranges@.len() - i,
        {
            proof {
                lemma_concat_map_push(self.ranges@.subrange(0, i as int), self.ranges@[i as int], vd_enc_fn());
                assert(self.ranges@.subrange(0, i as int).push(self.ranges@[i as int]) =~= self.ranges@.subrange(0, i + 1));
                lemma_concat_map_prefix_len(self.ranges@, i + 1, vd_enc_fn());
            }
            total = total + self.ranges[i].wire_len();
            i = i + 1;
        }
        assert(self.ranges@.subrange(0, i as int) =~= self.ranges@);
        total
    }

    /// Writes the selector bytes to the front of `buf`.
    pub fn serialize_into(&self, buf: &mut [u8]) -> (r: Result<usize, Error>)
        requires
            self.wire().len() <= usize::MAX,
        ensures
            emitted(r, old(buf)@, final(buf)@, self.wire()),
    {
        let len = self.serialized_len();
        if buf.len() < len {
            return Err(Error::OutputBufferTooSmall { need: len, have: buf.len() });
        }
        let mut v: Vec<u8> = Vec::new();
        self.write_to(&mut v);
        copy_to_front(buf, &v);
        Ok(len)
    }

    /// Appends the selector bytes to `out`.
    pub fn write_to(&self, out: &mut Vec<u8>)
        ensures
            final(out)@ == old(out)@ + self.wire(),
    {
        let mut i: usize = 0;
        while i < self.ranges.len()
            invariant
                i <= self.ranges@.len(),
                out@ == old(out)@ + concat_map(self.ranges@.subrange(0, i as int), vd_enc_fn()),
            decreases self.ranges@.len() - i,
        {
            proof {
                lemma_concat_map_push(self.ranges@.subrange(0, i as int), self.ranges@[i as int], vd_enc_fn());
                assert(self.ranges@.subrange(0, i as int).push(self.ranges@[i as int]) =~= self.ranges@.subrange(0, i + 1));
            }
            self.ranges[i].write_to(out);
            i = i + 1;
            assert(out@ =~= old(out)@ + concat_map(self.ranges@.subrange(0, i as int), vd_enc_fn()));
        }
        assert(self.ranges@.subrange(0, i as int) =~= self.ranges@);
    }
}

/// Encoding then parsing a well-formed video_depth_range body gives it back.
pub proof fn lemma_video_depth_range_encode_parse(d: VideoDepthRange)
    requires
        d.wf(),
    ensures
        VideoDepthRange::sel_ok(d.wire()),
        d.decodes(d.wire()),
{
    lemma_vd_len_stable();
    let es = d.ranges@;
    assert forall|i: int| 0 <= i < es.len() implies 0 < vd_len_fn()(#[trigger] vd_enc_fn()(es[i]))
        == vd_enc_fn()(es[i]).len() && vd_dec_fn()(es[i], vd_enc_fn()(es[i])) by {
        assert(es[i].wf());
        lemma_vd_entry_encode_parse(es[i]);
    }
    lemma_run_of_encoded(es, vd_len_fn(), vd_dec_fn(), vd_enc_fn());
}

/// Parsing then encoding canonical video_depth_range bytes gives them back.
pub proof fn lemma_video_depth_range_parse_encode(s: Seq<u8>, d: VideoDepthRange)
    requires
        VideoDepthRange::sel_ok(s),
        VideoDepthRange::canonical(s),
        d.decodes(s),
    ensures
        d.wire() == s,
        d.wf(),
{
    assert forall|e: DepthRange, t: Seq<u8>| #[trigger] vd_dec_fn()(e, t) && vd_canon_fn()(t) implies vd_enc_fn()(e)
        == t && vd_good_fn()(e) by {
        lemma_vd_entry_parse_encode(t, e);
    }
    lemma_run_reencodes(d.ranges@, s, vd_len_fn(), vd_dec_fn(), vd_enc_fn(), vd_canon_fn(), vd_good_fn());
    assert forall|i: int| 0 <= i < d.ranges@.len() implies #[trigger] d.ranges@[i].wf() by {
        assert(vd_good_fn()(d.ranges@[i]));
    }
}

/// A parsed VideoDepthRange is well formed: it encodes again, and parsing that encoding
/// yields it back.
pub proof fn lemma_video_depth_range_reparse(s: Seq<u8>, d: VideoDepthRange)
    requires
        VideoDepthRange::sel_ok(s),
        d.decodes(s),
    ensures
        d.wf(),
        VideoDepthRange::sel_ok(d.wire()),
        d.decodes(d.wire()),
        d.wire().len() <= s.len(),
{
    assert forall|e: DepthRange, t: Seq<u8>| #[trigger] vd_dec_fn()(e, t) implies vd_enc_fn()(e).len()
        <= t.len() && vd_good_fn()(e) by {
        lemma_vd_entry_relength(t, e);
    }
    lemma_run_relength(d.ranges@, s, vd_len_fn(), vd_dec_fn(), vd_enc_fn(), vd_good_fn());
    assert forall|i: int| 0 <= i < d.ranges@.len() implies #[trigger] d.ranges@[i].wf() by {
        assert(vd_good_fn()(d.ranges@[i]));
    }
    lemma_video_depth_range_encode_parse(d);
}

/// The body of a parsed depth range entry, chosen by the literal range_type codes
/// of EN 300 468: 0 production disparity hint, 1 multi-region disparity SEI
/// present, any other value kept raw.
pub proof fn lemma_depth_range_type_codes(t: Seq<u8>, e: DepthRange)
    requires
        e.decodes(t),
    ensures
        t[0] == 0 ==> e.body is ProductionDisparityHint,
        t[0] == 1 ==> e.body is MultiRegionSei,
        t[0] >= 2 ==> e.body is Other,
{
}

} // verus!
