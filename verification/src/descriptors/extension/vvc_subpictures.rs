//! VVC Subpictures Descriptor — ETSI EN 300 468 §6.4.17 (tag_extension 0x23).

use super::ExtensionBodyDef;
use super::invalid;
use crate::error::{is_invalid, is_too_short, Error};
use crate::text::DvbText;
use crate::wire::{
    bit, concat_map, lemma_concat_map_blocks, lemma_concat_map_fixed, lemma_concat_map_push, push_bytes,
    push_u8,
};
use crate::descriptors::emitted;
use crate::wire::copy_to_front;
use vstd::prelude::*;

verus! {

impl ExtensionBodyDef for VvcSubpicturesDescriptor<'_> {
    const TAG_EXTENSION: u8 = 0x23;
    const NAME: &'static str = "VVC_SUBPICTURES";
}

/// One VVC subpicture entry (Table 162a inner loop).
#[derive(Debug, Clone, Copy, PartialEq, Eq)]
pub struct VvcSubpicture {
    /// component_tag(8).
    pub component_tag: u8,
    /// vvc_subpicture_id(8).
    pub vvc_subpicture_id: u8,
}

/// The two bytes of a subpicture entry.
pub open spec fn subpicture_wire() -> spec_fn(VvcSubpicture) -> Seq<u8> {
    |e: VvcSubpicture| seq![e.component_tag, e.vvc_subpicture_id]
}

/// vvc_subpictures body (Table 162a).
#[derive(Debug, Clone, PartialEq, Eq)]
pub struct VvcSubpicturesDescriptor<'a> {
    /// default_service_mode(1) — byte 0 bit 7.
    pub default_service_mode: bool,
    /// Subpicture entries in wire order.
    pub subpictures: Vec<VvcSubpicture>,
    /// processing_mode(3) — byte after the subpicture loop, bits `[2:0]`.
    pub processing_mode: u8,
    /// Length-delimited service_description text, present iff
    /// service_description_present (byte 0 bit 6) is set.
    pub service_description: Option<DvbText<'a>>,
}

proof fn lemma_vvc_bits(b: u8, d: u8, t: u8, n: u8)
    by (bit_vector)
    requires
        d <= 1,
        t <= 1,
    ensures
        ((d << 7u8) | (t << 6u8) | (n & 0x3F)) & 0x80 != 0 <==> d == 1,
        ((d << 7u8) | (t << 6u8) | (n & 0x3F)) & 0x40 != 0 <==> t == 1,
        ((d << 7u8) | (t << 6u8) | (n & 0x3F)) & 0x3F == n & 0x3F,
        ((if b & 0x80 != 0 { 1u8 } else { 0u8 }) << 7u8) | ((if b & 0x40 != 0 { 1u8 } else { 0u8 }) << 6u8)
            | ((b & 0x3F) & 0x3F) == b,
        (n & 0x07) & 0x07 == n & 0x07,
        b & 0xF8 == 0 ==> b & 0x07 == b,
        n < 8 ==> n & 0x07 == n,
        n < 64 ==> n & 0x3F == n,
        b & 0x3F < 64,
        n & 0x07 < 8,
{
}

impl<'a> VvcSubpicturesDescriptor<'a> {
    /// number_of_vvc_subpictures in the selector bytes `s`.
    pub open spec fn count(s: Seq<u8>) -> int {
        (s[0] & 0x3F) as int
    }

    /// service_description_present in the selector bytes `s`.
    pub open spec fn has_text(s: Seq<u8>) -> bool {
        s[0] & 0x40 != 0
    }

    /// Offset of the processing_mode byte.
    pub open spec fn mode_at(s: Seq<u8>) -> int {
        1 + 2 * Self::count(s)
    }

    /// End of the service_description text.
    pub open spec fn text_end(s: Seq<u8>) -> int {
        Self::mode_at(s) + 2 + s[Self::mode_at(s) + 1]
    }

    /// Parsing succeeds on exactly these selector bytes.
    pub open spec fn sel_ok(s: Seq<u8>) -> bool {
        &&& s.len() >= 1
        &&& s.len() >= Self::mode_at(s) + 1
        &&& if Self::has_text(s) {
            s.len() >= Self::mode_at(s) + 2 && s.len() == Self::text_end(s)
        } else {
            s.len() == Self::mode_at(s) + 1
        }
    }

    /// The error reported for selector bytes that do not parse.
    pub open spec fn sel_error(e: Error, s: Seq<u8>) -> bool {
        if s.len() == 0 {
            is_too_short(e, 1, 0)
        } else if s.len() < Self::mode_at(s) + 1 {
            is_too_short(e, Self::mode_at(s) + 1, s.len() as int)
        } else if Self::has_text(s) && s.len() < Self::mode_at(s) + 2 {
            is_too_short(e, Self::mode_at(s) + 2, s.len() as int)
        } else if Self::has_text(s) && s.len() < Self::text_end(s) {
            is_too_short(e, Self::text_end(s), s.len() as int)
        } else {
            is_invalid(e, super::TAG)
        }
    }

    /// The reserved bits of the processing_mode byte are zero.
    pub open spec fn canonical(s: Seq<u8>) -> bool {
        s[Self::mode_at(s)] & 0xF8 == 0
    }

    /// `self` is what parsing the selector bytes `s` yields.
    pub open spec fn decodes(&self, s: Seq<u8>) -> bool {
        &&& self.default_service_mode == (s[0] & 0x80 != 0)
        &&& self.subpictures@.len() == Self::count(s)
        &&& forall|i: int|
            0 <= i < Self::count(s) ==> (#[trigger] self.subpictures@[i]).component_tag == s[1 + 2 * i]
                && self.subpictures@[i].vvc_subpicture_id == s[2 + 2 * i]
        &&& self.processing_mode == s[Self::mode_at(s)] & 0x07
        &&& if Self::has_text(s) {
            self.service_description matches Some(t) && t@ == s.subrange(
                Self::mode_at(s) + 2,
                Self::text_end(s),
            )
        } else {
            self.service_description is None
        }
    }

    /// The first byte written by serialization.
    pub open spec fn byte0(&self) -> u8 {
        (bit(self.default_service_mode) << 7u8) | (bit(self.service_description is Some) << 6u8) | ((
        (self.subpictures@.len() % 256) as u8) & 0x3F)
    }

    /// The optional length-prefixed text.
    pub open spec fn text_wire(&self) -> Seq<u8> {
        match self.service_description {
            Some(t) => seq![(t@.len() % 256) as u8] + t@,
            None => Seq::empty(),
        }
    }

    /// The selector bytes written by serialization.
    pub open spec fn wire(&self) -> Seq<u8> {
        seq![self.byte0()] + concat_map(self.subpictures@, subpicture_wire()) + seq![
            self.processing_mode & 0x07,
        ] + self.text_wire()
    }

    /// The count, processing mode and text length fit their fields.
    pub open spec fn wf(&self) -> bool {
        &&& self.subpictures@.len() <= 63
        &&& self.processing_mode < 8
        &&& self.service_description matches Some(t) ==> t@.len() <= 255
    }

    proof fn lemma_wire_len(&self)
        ensures
            concat_map(self.subpictures@, subpicture_wire()).len() == 2 * self.subpictures@.len(),
            forall|i: int|
                0 <= i < self.subpictures@.len() ==> concat_map(self.subpictures@, subpicture_wire()).subrange(
                    2 * i,
                    2 * i + 2,
                ) == #[trigger] subpicture_wire()(self.subpictures@[i]),
    {
        let es = self.subpictures@;
        assert forall|i: int| 0 <= i < es.len() implies #[trigger] subpicture_wire()(es[i]).len() == 2 by {}
        lemma_concat_map_fixed(es, subpicture_wire(), 2);
    }

    /// Parses the vvc_subpictures body.
    pub fn parse(sel: &'a [u8]) -> (r: Result<Self, Error>)
        ensures
            r is Ok <==> Self::sel_ok(sel@),
            r matches Ok(d) ==> d.decodes(sel@),
            r matches Err(e) ==> Self::sel_error(e, sel@),
    {
        if sel.len() == 0 {
            return Err(Error::BufferTooShort { need: 1, have: sel.len(), what: "vvc_subpictures body" });
        }
        let byte0 = sel[0];
        let default_service_mode = (byte0 & 0x80) != 0;
        let service_description_present = (byte0 & 0x40) != 0;
        let n = (byte0 & 0x3F) as usize;
        let min_len = 1 + n * 2 + 1;
        if sel.len() < min_len {
            return Err(Error::BufferTooShort { need: min_len, have: sel.len(), what: "vvc_subpictures body" });
        }
        let mut pos: usize = 1;
        let mut subpictures: Vec<VvcSubpicture> = Vec::new();
        let mut i: usize = 0;
        while i < n
            invariant
                n == (sel@[0] & 0x3F) as int,
                1 + 2 * n + 1 <= sel.len(),
                i <= n,
                pos == 1 + 2 * i,
                subpictures@.len() == i,
                forall|j: int|
                    0 <= j < i ==> (#[trigger] subpictures@[j]).component_tag == sel@[1 + 2 * j]
                        && subpictures@[j].vvc_subpicture_id == sel@[2 + 2 * j],
            decreases n - i,
        {
            subpictures.push(VvcSubpicture { component_tag: sel[pos], vvc_subpicture_id: sel[pos + 1] });
            pos = pos + 2;
            i = i + 1;
        }
        let processing_mode = sel[pos] & 0x07;
        pos = pos + 1;
        let service_description = if service_description_present {
            if sel.len() < pos + 1 {
                return Err(Error::BufferTooShort { need: pos + 1, have: sel.len(), what: "vvc_subpictures body" });
            }
            let len = sel[pos] as usize;
            pos = pos + 1;
            if sel.len() - pos < len {
                return Err(
                    Error::BufferTooShort { need: pos + len, have: sel.len(), what: "vvc_subpictures body" },
                );
            }
            let text = DvbText::new(&sel[pos..pos + len]);
            pos = pos + len;
            Some(text)
        } else {
            None
        };
        if pos != sel.len() {
            return Err(invalid("vvc_subpictures: trailing data"));
        }
        Ok(VvcSubpicturesDescriptor { default_service_mode, subpictures, processing_mode, service_description })
    }

    /// Length of the selector bytes.
    pub fn serialized_len(&self) -> (n: usize)
        requires
            self.wire().len() <= usize::MAX,
        ensures
            n == self.wire().len(),
    {
        proof {
            self.lemma_wire_len();
        }
        let text: usize = match &self.service_description {
            Some(t) => 1 + t.len(),
            None => 0,
        };
        1 + self.subpictures.len() * 2 + 1 + text
    }

    /// Writes the selector bytes to the front of `buf`.
    pub fn serialize_into(&self, buf: &mut [u8]) -> (r: Result<usize, Error>)
        requires
            self.wire().len() <= usize::MAX,
        ensures
            emitted(r, old(buf)@, final(buf)@, self.wire()),
    {
        let len = self.serialized_len();
        if buf.len() < len {
            return Err(Error::OutputBufferTooSmall { need: len, have: buf.len() });
        }
        let mut v: Vec<u8> = Vec::new();
        self.write_to(&mut v);
        copy_to_front(buf, &v);
        Ok(len)
    }

    /// Appends the selector bytes to `out`.
    pub fn write_to(&self, out: &mut Vec<u8>)
        ensures
            final(out)@ == old(out)@ + self.wire(),
    {
        let d: u8 = if self.default_service_mode {
            1
        } else {
            0
        };
        let t: u8 = if self.service_description.is_some() {
            1
        } else {
            0
        };
        push_u8(out, (d << 7u8) | (t << 6u8) | (((self.subpictures.len() % 256) as u8) & 0x3F));
        let ghost start = out@;
        let mut i: usize = 0;
        while i < self.subpictures.len()
            invariant
                i <= self.subpictures@.len(),
                out@ == start + concat_map(self.subpictures@.subrange(0, i as int), subpicture_wire()),
            decreases self.subpictures@.len() - i,
        {
            proof {
                lemma_concat_map_push(self.subpictures@.subrange(0, i as int), self.subpictures@[i as int], subpicture_wire());
                assert(self.subpictures@.subrange(0, i as int).push(self.subpictures@[i as int]) =~= self.subpictures@.subrange(0, i + 1));
            }
            push_u8(out, self.subpictures[i].component_tag);
            push_u8(out, self.subpictures[i].vvc_subpicture_id);
            i = i + 1;
            assert(out@ =~= start + concat_map(self.subpictures@.subrange(0, i as int), subpicture_wire()));
        }
        assert(self.subpictures@.subrange(0, i as int) =~= self.subpictures@);
        push_u8(out, self.processing_mode & 0x07);
        match &self.service_description {
            Some(text) => {
                push_u8(out, (text.len() % 256) as u8);
                push_bytes(out, text.raw());
            },
            None => {},
        }
        assert(out@ =~= old(out)@ + self.wire());
    }
}

/// Encoding then parsing a well-formed vvc_subpictures body gives it back.
pub proof fn lemma_vvc_subpictures_encode_parse(d: VvcSubpicturesDescriptor)
    requires
        d.wf(),
    ensures
        VvcSubpicturesDescriptor::sel_ok(d.wire()),
        d.decodes(d.wire()),
{
    let w = d.wire();
    let n: int = d.subpictures@.len() as int;
    d.lemma_wire_len();
    lemma_vvc_bits(0, bit(d.default_service_mode), bit(d.service_description is Some), (n % 256) as u8);
    lemma_vvc_bits(0, 0, 0, d.processing_mode);
    assert(VvcSubpicturesDescriptor::count(w) == n);
    let c = concat_map(d.subpictures@, subpicture_wire());
    assert forall|i: int| 0 <= i < n implies (#[trigger] d.subpictures@[i]).component_tag == w[1 + 2 * i]
        && d.subpictures@[i].vvc_subpicture_id == w[2 + 2 * i] by {
        assert(c.subrange(2 * i, 2 * i + 2) == subpicture_wire()(d.subpictures@[i]));
        assert(w[1 + 2 * i] == c[2 * i]);
        assert(w[2 + 2 * i] == c[2 * i + 1]);
    }
    assert(w[1 + 2 * n] == d.processing_mode & 0x07);
    match d.service_description {
        Some(t) => {
            assert(w[2 + 2 * n] == (t@.len() % 256) as u8);
            assert(w.subrange(3 + 2 * n, w.len() as int) =~= t@);
        },
        None => {},
    }
}

/// Parsing then encoding canonical vvc_subpictures bytes gives them back.
pub proof fn lemma_vvc_subpictures_parse_encode(s: Seq<u8>, d: VvcSubpicturesDescriptor)
    requires
        VvcSubpicturesDescriptor::sel_ok(s),
        VvcSubpicturesDescriptor::canonical(s),
        d.decodes(s),
    ensures
        d.wire() == s,
        d.wf(),
{
    let n = VvcSubpicturesDescriptor::count(s);
    lemma_vvc_bits(s[0], 0, 0, 0);
    lemma_vvc_bits(s[1 + 2 * n], 0, 0, s[1 + 2 * n]);
    let es = d.subpictures@;
    let mid = s.subrange(1, 1 + 2 * n);
    assert forall|i: int| 0 <= i < es.len() implies #[trigger] subpicture_wire()(es[i]) == mid.subrange(
        2 * i,
        2 * i + 2,
    ) by {
        assert(es[i].component_tag == s[1 + 2 * i]);
        assert(subpicture_wire()(es[i]) =~= mid.subrange(2 * i, 2 * i + 2));
    }
    lemma_concat_map_blocks(es, subpicture_wire(), 2, mid);
    assert(d.wire() =~= s);
}

/// A parsed VvcSubpicturesDescriptor is well formed: it encodes again, and parsing that encoding
/// yields it back.
pub proof fn lemma_vvc_subpictures_reparse(s: Seq<u8>, d: VvcSubpicturesDescriptor)
    requires
        VvcSubpicturesDescriptor::sel_ok(s),
        d.decodes(s),
    ensures
        d.wf(),
        VvcSubpicturesDescriptor::sel_ok(d.wire()),
        d.decodes(d.wire()),
        d.wire().len() <= s.len(),
{
    let n = VvcSubpicturesDescriptor::count(s);
    lemma_vvc_bits(s[0], 0, 0, 0);
    lemma_vvc_bits(s[1 + 2 * n], 0, 0, s[1 + 2 * n]);
    d.lemma_wire_len();
    lemma_vvc_subpictures_encode_parse(d);
}

/// Parsing, encoding and parsing again gives the same value: whatever parses
/// from the encoding of a parsed VvcSubpicturesDescriptor holds the same
/// subpictures and equals it otherwise.
pub proof fn lemma_vvc_subpictures_round_trip(s: Seq<u8>, d: VvcSubpicturesDescriptor, d2: VvcSubpicturesDescriptor)
    requires
        VvcSubpicturesDescriptor::sel_ok(s),
        d.decodes(s),
        d2.decodes(d.wire()),
    ensures
        d2.subpictures@ == d.subpictures@,
        d2 == (VvcSubpicturesDescriptor { subpictures: d2.subpictures, ..d }),
{
    lemma_vvc_subpictures_reparse(s, d);
    let w = d.wire();
    assert forall|i: int| 0 <= i < d.subpictures@.len() implies d2.subpictures@[i] == d.subpictures@[i] by {
        assert(d2.subpictures@[i].component_tag == w[1 + 2 * i]);
        assert(d.subpictures@[i].component_tag == w[1 + 2 * i]);
    }
    assert(d2.subpictures@ =~= d.subpictures@);
    if d.service_description is Some {
        DvbText::lemma_view_eq(d2.service_description.unwrap(), d.service_description.unwrap());
    }
}

} // verus!
