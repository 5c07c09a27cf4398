//! TTML Subtitling Descriptor — ETSI EN 303 560 §5.2.1.1 (tag_extension 0x20).
//!
//! The `reserved_tail` field holds trailing reserved_zero_future_use bytes
//! verbatim.

use super::ExtensionBodyDef;
use super::ISO_639_LEN;
use crate::error::{is_too_short, sat, Error};
use crate::text::{DvbText, LangCode};
use crate::wire::{be32, code_bytes, lemma_be32_of_bytes, lemma_bytes_of_be32, push_bytes, push_code, push_u32, push_u8, read_code, read_u32, u32_bytes};
use crate::descriptors::emitted;
use crate::wire::copy_to_front;
use vstd::prelude::*;

verus! {

impl ExtensionBodyDef for TtmlSubtitling<'_> {
    const TAG_EXTENSION: u8 = 0x20;
    const NAME: &'static str = "TTML_SUBTITLING";
}

/// Fixed part: language code, purpose byte and flags byte.
const TTML_FIXED_LEN: usize = 5;

/// TTML_subtitling body (EN 303 560 Table 1, §5.2.1.1).
#[derive(Debug, Clone, PartialEq, Eq)]
pub struct TtmlSubtitling<'a> {
    /// ISO_639_language_code(24).
    pub iso_639_language_code: LangCode,
    /// subtitle_purpose(6) — Table 2.
    pub subtitle_purpose: u8,
    /// TTS_suitability(2) — Table 3.
    pub tts_suitability: u8,
    /// dvb_ttml_profile codes, one per profile byte.
    pub dvb_ttml_profiles: Vec<u8>,
    /// qualifier(32), present iff qualifier_present_flag.
    pub qualifier: Option<u32>,
    /// font_id(7) values (one per font), present iff essential_font_usage_flag.
    pub font_ids: Option<Vec<u8>>,
    /// text_char run (DVB Annex-A text label).
    pub text: DvbText<'a>,
    /// Trailing reserved_zero_future_use bytes, preserved verbatim.
    pub reserved_tail: &'a [u8],
}

/// A font_id byte with its reserved top bit cleared.
pub open spec fn font_bits() -> spec_fn(u8) -> u8 {
    |x: u8| x & 0x7F
}

proof fn lemma_ttml_bits(b3: u8, b4: u8, sp: u8, tts: u8, f: u8, q: u8, n: u8)
    by (bit_vector)
    requires
        f <= 1,
        q <= 1,
    ensures
        ((((sp & 0x3F) << 2u8) | (tts & 0x03)) >> 2u8) == sp & 0x3F,
        ((((sp & 0x3F) << 2u8) | (tts & 0x03)) & 0x03) == tts & 0x03,
        sp < 64 ==> sp & 0x3F == sp,
        tts < 4 ==> tts & 0x03 == tts,
        (((f << 7u8) | (q << 6u8) | (n & 0x0F)) >> 7u8) & 1 == f,
        (((f << 7u8) | (q << 6u8) | (n & 0x0F)) >> 6u8) & 1 == q,
        ((f << 7u8) | (q << 6u8) | (n & 0x0F)) & 0x0F == n & 0x0F,
        n < 16 ==> n & 0x0F == n,
        (((b3 >> 2u8) & 0x3F) << 2u8) | ((b3 & 0x03) & 0x03) == b3,
        b3 >> 2u8 < 64,
        b3 & 0x03 < 4,
        b4 & 0x30 == 0 ==> (((b4 >> 7u8) & 1) << 7u8) | (((b4 >> 6u8) & 1) << 6u8) | ((b4 & 0x0F) & 0x0F) == b4,
        (b4 >> 7u8) & 1 <= 1,
        (b4 >> 6u8) & 1 <= 1,
        b4 & 0x0F < 16,
        b3 & 0x80 == 0 ==> b3 & 0x7F == b3,
        (n & 0x7F) < 128,
        n < 128 ==> n & 0x7F == n,
{
}

impl<'a> TtmlSubtitling<'a> {
    /// dvb_ttml_profile_count.
    pub open spec fn profile_count(s: Seq<u8>) -> int {
        (s[4] & 0x0F) as int
    }

    /// qualifier_present_flag.
    pub open spec fn has_qualifier(s: Seq<u8>) -> bool {
        (s[4] >> 6u8) & 1 != 0
    }

    /// essential_font_usage_flag.
    pub open spec fn has_fonts(s: Seq<u8>) -> bool {
        (s[4] >> 7u8) & 1 != 0
    }

    /// End of the profile bytes.
    pub open spec fn profiles_end(s: Seq<u8>) -> int {
        5 + Self::profile_count(s)
    }

    /// End of the optional qualifier.
    pub open spec fn qualifier_end(s: Seq<u8>) -> int {
        Self::profiles_end(s) + if Self::has_qualifier(s) {
            4int
        } else {
            0int
        }
    }

    /// End of the optional font loop.
    pub open spec fn fonts_end(s: Seq<u8>) -> int {
        let p = Self::qualifier_end(s);
        if Self::has_fonts(s) {
            p + 1 + s[p]
        } else {
            p
        }
    }

    /// End of the text run.
    pub open spec fn text_end(s: Seq<u8>) -> int {
        Self::fonts_end(s) + 1 + s[Self::fonts_end(s)]
    }

    /// Parsing succeeds on exactly these selector bytes.
    pub open spec fn sel_ok(s: Seq<u8>) -> bool {
        &&& s.len() >= 5
        &&& s.len() >= Self::profiles_end(s)
        &&& Self::has_qualifier(s) ==> s.len() >= Self::qualifier_end(s)
        &&& Self::has_fonts(s) ==> s.len() > Self::qualifier_end(s) && s.len() >= Self::fonts_end(s)
        &&& s.len() > Self::fonts_end(s)
        &&& s.len() >= Self::text_end(s)
    }

    /// The error reported for selector bytes that do not parse.
    pub open spec fn sel_error(e: Error, s: Seq<u8>) -> bool {
        let n = s.len() as int;
        if n < 5 {
            is_too_short(e, 5, n)
        } else if n < Self::profiles_end(s) {
            is_too_short(e, Self::profiles_end(s), n)
        } else if Self::has_qualifier(s) && n < Self::qualifier_end(s) {
            is_too_short(e, sat(Self::qualifier_end(s)), n)
        } else if Self::has_fonts(s) && n <= Self::qualifier_end(s) {
            is_too_short(e, sat(Self::qualifier_end(s) + 1), n)
        } else if Self::has_fonts(s) && n < Self::fonts_end(s) {
            is_too_short(e, sat(Self::fonts_end(s)), n)
        } else if n <= Self::fonts_end(s) {
            is_too_short(e, sat(Self::fonts_end(s) + 1), n)
        } else {
            is_too_short(e, sat(Self::text_end(s)), n)
        }
    }

    /// The reserved flag bits and the reserved top bit of each font_id are zero.
    pub open spec fn canonical(s: Seq<u8>) -> bool {
        &&& s[4] & 0x30 == 0
        &&& Self::has_fonts(s) ==> forall|i: int|
            0 <= i < s[Self::qualifier_end(s)] ==> #[trigger] s[Self::qualifier_end(s) + 1 + i] & 0x80 == 0
    }

    /// `self` is what parsing the selector bytes `s` yields.
    pub open spec fn decodes(&self, s: Seq<u8>) -> bool {
        let q = Self::qualifier_end(s);
        &&& code_bytes(self.iso_639_language_code.0) == s.subrange(0, 3)
        &&& self.subtitle_purpose == s[3] >> 2u8
        &&& self.tts_suitability == s[3] & 0x03
        &&& self.dvb_ttml_profiles@ == s.subrange(5, Self::profiles_end(s))
        &&& if Self::has_qualifier(s) {
            self.qualifier == Some(be32(s, Self::profiles_end(s)) as u32)
        } else {
            self.qualifier is None
        }
        &&& if Self::has_fonts(s) {
            self.font_ids matches Some(v) && v@ == s.subrange(q + 1, Self::fonts_end(s)).map_values(
                font_bits(),
            )
        } else {
            self.font_ids is None
        }
        &&& self.text@ == s.subrange(Self::fonts_end(s) + 1, Self::text_end(s))
        &&& self.reserved_tail@ == s.subrange(Self::text_end(s), s.len() as int)
    }

    /// The flags byte written by serialization.
    pub open spec fn byte4(&self) -> u8 {
        (if self.font_ids is Some {
            0x80u8
        } else {
            0u8
        }) | (if self.qualifier is Some {
            0x40u8
        } else {
            0u8
        }) | (((self.dvb_ttml_profiles@.len() % 256) as u8) & 0x0F)
    }

    /// The optional font loop.
    pub open spec fn fonts_wire(&self) -> Seq<u8> {
        match self.font_ids {
            Some(v) => seq![(v@.len() % 256) as u8] + v@.map_values(font_bits()),
            None => Seq::empty(),
        }
    }

    /// The selector bytes written by serialization.
    pub open spec fn wire(&self) -> Seq<u8> {
        code_bytes(self.iso_639_language_code.0) + seq![
            ((self.subtitle_purpose & 0x3F) << 2u8) | (self.tts_suitability & 0x03),
            self.byte4(),
        ] + self.dvb_ttml_profiles@ + (match self.qualifier {
            Some(q) => u32_bytes(q),
            None => Seq::empty(),
        }) + self.fonts_wire() + seq![(self.text@.len() % 256) as u8] + self.text@ + self.reserved_tail@
    }

    /// The coded fields fit their widths and the counted runs their count fields.
    pub open spec fn wf(&self) -> bool {
        &&& self.subtitle_purpose < 64
        &&& self.tts_suitability < 4
        &&& self.dvb_ttml_profiles@.len() <= 15
        &&& self.font_ids matches Some(v) ==> v@.len() <= 255 && forall|i: int|
            0 <= i < v@.len() ==> #[trigger] v@[i] < 128
        &&& self.text@.len() <= 255
    }

    /// Parses the TTML_subtitling body.
    pub fn parse(sel: &'a [u8]) -> (r: Result<Self, Error>)
        ensures
            r is Ok <==> Self::sel_ok(sel@),
            r matches Ok(d) ==> d.decodes(sel@),
            r matches Err(e) ==> Self::sel_error(e, sel@),
    {
        if sel.len() < TTML_FIXED_LEN {
            return Err(Error::BufferTooShort { need: TTML_FIXED_LEN, have: sel.len(), what: "TTML_subtitling body" });
        }
        let iso_639_language_code = LangCode(read_code(sel, 0));
        let b3 = sel[ISO_639_LEN];
        let subtitle_purpose = b3 >> 2u8;
        let tts_suitability = b3 & 0x03;
        let b4 = sel[ISO_639_LEN + 1];
        let essential_font_usage_flag = (b4 >> 7u8) & 1;
        let qualifier_present_flag = (b4 >> 6u8) & 1;
        let dvb_ttml_profile_count = (b4 & 0x0F) as usize;
        let mut pos: usize = TTML_FIXED_LEN;
        if sel.len() < pos + dvb_ttml_profile_count {
            return Err(
                Error::BufferTooShort { need: pos + dvb_ttml_profile_count, have: sel.len(), what: "TTML_subtitling body" },
            );
        }
        let dvb_ttml_profiles = vstd::slice::slice_to_vec(&sel[pos..pos + dvb_ttml_profile_count]);
        pos = pos + dvb_ttml_profile_count;
        let qualifier = if qualifier_present_flag != 0 {
            if sel.len() - pos < 4 {
                return Err(
                    Error::BufferTooShort { need: pos.saturating_add(4), have: sel.len(), what: "TTML_subtitling body" },
                );
            }
            let q = read_u32(sel, pos);
            pos = pos + 4;
            Some(q)
        } else {
            None
        };
        let ghost q_end = pos as int;
        let font_ids = if essential_font_usage_flag != 0 {
            if sel.len() <= pos {
                return Err(
                    Error::BufferTooShort { need: pos.saturating_add(1), have: sel.len(), what: "TTML_subtitling body" },
                );
            }
            let font_count = sel[pos] as usize;
            pos = pos + 1;
            if sel.len() - pos < font_count {
                return Err(
                    Error::BufferTooShort {
                        need: pos.saturating_add(font_count),
                        have: sel.len(),
                        what: "TTML_subtitling body",
                    },
                );
            }
            let mut ids: Vec<u8> = Vec::new();
            let mut i: usize = 0;
            while i < font_count
                invariant
                    pos + font_count <= sel.len(),
                    i <= font_count,
                    ids@ == sel@.subrange(pos as int, pos + i).map_values(font_bits()),
                decreases font_count - i,
            {
                ids.push(sel[pos + i] & 0x7F);
                i = i + 1;
                assert(ids@ =~= sel@.subrange(pos as int, pos + i).map_values(font_bits()));
            }
            pos = pos + font_count;
            Some(ids)
        } else {
            None
        };
        if sel.len() <= pos {
            return Err(Error::BufferTooShort { need: pos.saturating_add(1), have: sel.len(), what: "TTML_subtitling body" });
        }
        let text_length = sel[pos] as usize;
        pos = pos + 1;
        if sel.len() - pos < text_length {
            return Err(
                Error::BufferTooShort { need: pos.saturating_add(text_length), have: sel.len(), what: "TTML_subtitling body" },
            );
        }
        let text = DvbText::new(&sel[pos..pos + text_length]);
        pos = pos + text_length;
        let reserved_tail = &sel[pos..sel.len()];
        Ok(
            TtmlSubtitling {
                iso_639_language_code,
                subtitle_purpose,
                tts_suitability,
                dvb_ttml_profiles,
                qualifier,
                font_ids,
                text,
                reserved_tail,
            },
        )
    }

    /// Length of the selector bytes.
    pub fn serialized_len(&self) -> (n: usize)
        requires
            self.wire().len() <= usize::MAX,
        ensures
            n == self.wire().len(),
    {
        let q: usize = if self.qualifier.is_some() {
            4
        } else {
            0
        };
        let f: usize = match &self.font_ids {
            Some(ids) => 1 + ids.len(),
            None => 0,
        };
        TTML_FIXED_LEN + self.dvb_ttml_profiles.len() + q + f + 1 + self.text.len() + self.reserved_tail.len()
    }

    /// Writes the selector bytes to the front of `buf`.
    pub fn serialize_into(&self, buf: &mut [u8]) -> (r: Result<usize, Error>)
        requires
            self.wire().len() <= usize::MAX,
        ensures
            emitted(r, old(buf)@, final(buf)@, self.wire()),
    {
        let len = self.serialized_len();
        if buf.len() < len {
            return Err(Error::OutputBufferTooSmall { need: len, have: buf.len() });
        }
        let mut v: Vec<u8> = Vec::new();
        self.write_to(&mut v);
        copy_to_front(buf, &v);
        Ok(len)
    }

    /// Appends the selector bytes to `out`.
    pub fn write_to(&self, out: &mut Vec<u8>)
        ensures
            final(out)@ == old(out)@ + self.wire(),
    {
        push_code(out, self.iso_639_language_code.0);
        push_u8(out, ((self.subtitle_purpose & 0x3F) << 2u8) | (self.tts_suitability & 0x03));
        let f: u8 = if self.font_ids.is_some() {
            0x80
        } else {
            0
        };
        let q: u8 = if self.qualifier.is_some() {
            0x40
        } else {
            0
        };
        push_u8(out, f | q | (((self.dvb_ttml_profiles.len() % 256) as u8) & 0x0F));
        push_bytes(out, self.dvb_ttml_profiles.as_slice());
        match self.qualifier {
            Some(v) => push_u32(out, v),
            None => {},
        }
        let ghost mid = out@;
        match &self.font_ids {
            Some(ids) => {
                push_u8(out, (ids.len() % 256) as u8);
                let ghost start = out@;
                let mut i: usize = 0;
                while i < ids.len()
                    invariant
                        i <= ids@.len(),
                        out@ == start + ids@.subrange(0, i as int).map_values(font_bits()),
                    decreases ids@.len() - i,
                {
                    push_u8(out, ids[i] & 0x7F);
                    i = i + 1;
                    assert(out@ =~= start + ids@.subrange(0, i as int).map_values(font_bits()));
                }
                assert(ids@.subrange(0, i as int) =~= ids@);
                assert(out@ =~= mid + self.fonts_wire());
            },
            None => {
                assert(out@ =~= mid + self.fonts_wire());
            },
        }
        let raw = self.text.raw();
        push_u8(out, (raw.len() % 256) as u8);
        push_bytes(out, raw);
        push_bytes(out, self.reserved_tail);
        assert(out@ =~= old(out)@ + self.wire());
    }
}

/// Encoding then parsing a well-formed TTML_subtitling body gives it back.
pub proof fn lemma_ttml_subtitling_encode_parse(d: TtmlSubtitling)
    requires
        d.wf(),
    ensures
        TtmlSubtitling::sel_ok(d.wire()),
        d.decodes(d.wire()),
{
    let w = d.wire();
    let np = d.dvb_ttml_profiles@.len();
    let fb: u8 = if d.font_ids is Some { 1 } else { 0 };
    let qb: u8 = if d.qualifier is Some { 1 } else { 0 };
    lemma_ttml_bits(0, 0, d.subtitle_purpose, d.tts_suitability, fb, qb, (np % 256) as u8);
    let b4v = d.byte4();
    let npb = (np % 256) as u8;
    assert(b4v == (fb << 7u8) | (qb << 6u8) | (npb & 0x0F)) by (bit_vector)
        requires
            fb == 1 || fb == 0,
            qb == 1 || qb == 0,
            b4v == (if fb == 1 { 0x80u8 } else { 0u8 }) | (if qb == 1 { 0x40u8 } else { 0u8 }) | (npb & 0x0F),
    ;
    assert(w[4] == d.byte4());
    assert(w.subrange(0, 3) =~= code_bytes(d.iso_639_language_code.0));
    let p1: int = 5 + np as int;
    assert(w.subrange(5, p1) =~= d.dvb_ttml_profiles@);
    let mut q: int = p1;
    match d.qualifier {
        Some(v) => {
            lemma_be32_of_bytes(v);
            assert(w.subrange(p1, p1 + 4) =~= u32_bytes(v));
            q = p1 + 4;
        },
        None => {},
    }
    assert(TtmlSubtitling::qualifier_end(w) == q);
    let mut f: int = q;
    match d.font_ids {
        Some(v) => {
            assert(w[q] == (v@.len() % 256) as u8);
            f = q + 1 + v@.len();
            let m = v@.map_values(font_bits());
            assert forall|i: int| 0 <= i < v@.len() implies #[trigger] m[i] == v@[i] by {
                lemma_ttml_bits(0, 0, 0, 0, 0, 0, v@[i]);
            }
            assert(m =~= v@);
            assert(w.subrange(q + 1, f) =~= v@);
        },
        None => {},
    }
    assert(TtmlSubtitling::fonts_end(w) == f);
    assert(w[f] == (d.text@.len() % 256) as u8);
    let t = f + 1 + d.text@.len();
    assert(w.subrange(f + 1, t) =~= d.text@);
    assert(w.subrange(t, w.len() as int) =~= d.reserved_tail@);
}

/// Parsing then encoding canonical TTML_subtitling bytes gives them back.
pub proof fn lemma_ttml_subtitling_parse_encode(s: Seq<u8>, d: TtmlSubtitling)
    requires
        TtmlSubtitling::sel_ok(s),
        TtmlSubtitling::canonical(s),
        d.decodes(s),
    ensures
        d.wire() == s,
        d.wf(),
{
    lemma_ttml_bits(s[3], s[4], 0, 0, 0, 0, 0);
    let fb = (s[4] >> 7u8) & 1;
    let qb = (s[4] >> 6u8) & 1;
    let b4v = d.byte4();
    let s4 = s[4];
    lemma_ttml_bits(0, 0, 0, 0, 0, 0, s4 & 0x0F);
    assert(((d.dvb_ttml_profiles@.len() % 256) as u8) & 0x0F == s4 & 0x0F);
    assert(b4v == s4) by (bit_vector)
        requires
            fb == (s4 >> 7u8) & 1,
            qb == (s4 >> 6u8) & 1,
            s4 & 0x30 == 0,
            b4v == (if fb != 0 { 0x80u8 } else { 0u8 }) | (if qb != 0 { 0x40u8 } else { 0u8 }) | (s4 & 0x0F),
    ;
    let p1 = TtmlSubtitling::profiles_end(s);
    let q = TtmlSubtitling::qualifier_end(s);
    if TtmlSubtitling::has_qualifier(s) {
        lemma_bytes_of_be32(s, p1);
    }
    if TtmlSubtitling::has_fonts(s) {
        let v = d.font_ids.unwrap();
        assert forall|i: int| 0 <= i < v@.len() implies #[trigger] v@[i] < 128 && v@[i] == s[q + 1 + i] by {
            assert(s[q + 1 + i] & 0x80 == 0);
            lemma_ttml_bits(s[q + 1 + i], 0, 0, 0, 0, 0, s[q + 1 + i]);
        }
        assert(v@.map_values(font_bits()) =~= s.subrange(q + 1, TtmlSubtitling::fonts_end(s)));
    }
    assert(d.wire() =~= s);
}

/// A parsed TtmlSubtitling is well formed: it encodes again, and parsing that encoding
/// yields it back.
pub proof fn lemma_ttml_subtitling_reparse(s: Seq<u8>, d: TtmlSubtitling)
    requires
        TtmlSubtitling::sel_ok(s),
        d.decodes(s),
    ensures
        d.wf(),
        TtmlSubtitling::sel_ok(d.wire()),
        d.decodes(d.wire()),
        d.wire().len() <= s.len(),
{
    lemma_ttml_bits(s[3], s[4], 0, 0, 0, 0, 0);
    if TtmlSubtitling::has_fonts(s) {
        let q = TtmlSubtitling::qualifier_end(s);
        let v = d.font_ids.unwrap();
        assert forall|i: int| 0 <= i < v@.len() implies #[trigger] v@[i] < 128 by {
            lemma_ttml_bits(0, 0, 0, 0, 0, 0, s[q + 1 + i]);
        }
    }
    lemma_ttml_subtitling_encode_parse(d);
}

} // verus!
