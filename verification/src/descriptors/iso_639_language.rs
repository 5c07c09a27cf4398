//! ISO 639 Language Descriptor — MPEG-2 ISO/IEC 13818-1 §2.6.19 (tag 0x0A).

use super::{
    body_of, descriptor_body, emit, emitted, framed, framed_prefix, header_error, header_ok,
    lemma_framed_parses, lemma_reframe, HEADER_LEN,
};
use crate::error::{is_invalid, Error};
use crate::text::LangCode;
use crate::wire::{
    code_bytes, concat_map, lemma_concat_map_blocks, lemma_concat_map_fixed, lemma_concat_map_push,
    push_code, push_u8, read_code,
};
use vstd::prelude::*;

verus! {

/// Descriptor tag for iso_639_language_descriptor.
pub const TAG: u8 = 0x0A;

/// Size of one (language, audio type) entry.
const ENTRY_LEN: usize = 4;

/// Audio type — ISO/IEC 13818-1 §2.6.19 Table 2-63.
#[derive(Debug, Clone, Copy, PartialEq, Eq)]
pub enum AudioType {
    /// 0x00 — undefined.
    Undefined,
    /// 0x01 — clean effects.
    CleanEffects,
    /// 0x02 — hearing impaired.
    HearingImpaired,
    /// 0x03 — visual impaired commentary.
    VisualImpairedCommentary,
    /// 0x04–0x7F — user private.
    UserPrivate(u8),
    /// 0x80 — primary.
    Primary,
    /// 0x81 — native.
    Native,
    /// 0x82 — emergency.
    Emergency,
    /// 0x83 — primary commentary.
    PrimaryCommentary,
    /// 0x84 — alternate commentary.
    AlternateCommentary,
    /// 0x85–0xFF — reserved.
    Reserved(u8),
}

impl AudioType {
    /// The variant for a wire byte.
    pub open spec fn spec_from_u8(v: u8) -> Self {
        if v == 0x00 {
            AudioType::Undefined
        } else if v == 0x01 {
            AudioType::CleanEffects
        } else if v == 0x02 {
            AudioType::HearingImpaired
        } else if v == 0x03 {
            AudioType::VisualImpairedCommentary
        } else if v <= 0x7F {
            AudioType::UserPrivate(v)
        } else if v == 0x80 {
            AudioType::Primary
        } else if v == 0x81 {
            AudioType::Native
        } else if v == 0x82 {
            AudioType::Emergency
        } else if v == 0x83 {
            AudioType::PrimaryCommentary
        } else if v == 0x84 {
            AudioType::AlternateCommentary
        } else {
            AudioType::Reserved(v)
        }
    }

    /// The wire byte of a variant.
    pub open spec fn spec_to_u8(self) -> u8 {
        match self {
            AudioType::Undefined => 0x00,
            AudioType::CleanEffects => 0x01,
            AudioType::HearingImpaired => 0x02,
            AudioType::VisualImpairedCommentary => 0x03,
            AudioType::UserPrivate(v) => v,
            AudioType::Primary => 0x80,
            AudioType::Native => 0x81,
            AudioType::Emergency => 0x82,
            AudioType::PrimaryCommentary => 0x83,
            AudioType::AlternateCommentary => 0x84,
            AudioType::Reserved(v) => v,
        }
    }

    /// A carried value lies in its variant's range.
    pub open spec fn wf(self) -> bool {
        match self {
            AudioType::UserPrivate(v) => 0x04 <= v <= 0x7F,
            AudioType::Reserved(v) => v >= 0x85,
            _ => true,
        }
    }

    /// The spec name of a variant.
    pub open spec fn spec_name(self) -> &'static str {
        match self {
            AudioType::Undefined => "undefined",
            AudioType::CleanEffects => "clean effects",
            AudioType::HearingImpaired => "hearing impaired",
            AudioType::VisualImpairedCommentary => "visual impaired commentary",
            AudioType::UserPrivate(_) => "user private",
            AudioType::Primary => "primary",
            AudioType::Native => "native",
            AudioType::Emergency => "emergency",
            AudioType::PrimaryCommentary => "primary commentary",
            AudioType::AlternateCommentary => "alternate commentary",
            AudioType::Reserved(_) => "reserved",
        }
    }

    /// `from_u8` then `to_u8` gives back every byte, and `from_u8` gives well-formed values.
    pub proof fn lemma_from_to(v: u8)
        ensures
            Self::spec_from_u8(v).spec_to_u8() == v,
            Self::spec_from_u8(v).wf(),
    {
    }

    /// `to_u8` then `from_u8` gives back every well-formed value.
    pub proof fn lemma_to_from(self)
        requires
            self.wf(),
        ensures
            Self::spec_from_u8(self.spec_to_u8()) == self,
    {
    }

    /// Creates a value from a wire byte; every byte maps to a variant.
    pub fn from_u8(v: u8) -> (r: Self)
        ensures
            r == Self::spec_from_u8(v),
    {
        if v == 0x00 {
            AudioType::Undefined
        } else if v == 0x01 {
            AudioType::CleanEffects
        } else if v == 0x02 {
            AudioType::HearingImpaired
        } else if v == 0x03 {
            AudioType::VisualImpairedCommentary
        } else if v <= 0x7F {
            AudioType::UserPrivate(v)
        } else if v == 0x80 {
            AudioType::Primary
        } else if v == 0x81 {
            AudioType::Native
        } else if v == 0x82 {
            AudioType::Emergency
        } else if v == 0x83 {
            AudioType::PrimaryCommentary
        } else if v == 0x84 {
            AudioType::AlternateCommentary
        } else {
            AudioType::Reserved(v)
        }
    }

    /// The wire byte for this value.
    pub fn to_u8(self) -> (r: u8)
        ensures
            r == self.spec_to_u8(),
    {
        match self {
            AudioType::Undefined => 0x00,
            AudioType::CleanEffects => 0x01,
            AudioType::HearingImpaired => 0x02,
            AudioType::VisualImpairedCommentary => 0x03,
            AudioType::UserPrivate(v) => v,
            AudioType::Primary => 0x80,
            AudioType::Native => 0x81,
            AudioType::Emergency => 0x82,
            AudioType::PrimaryCommentary => 0x83,
            AudioType::AlternateCommentary => 0x84,
            AudioType::Reserved(v) => v,
        }
    }

    /// The human-readable spec name for this value.
    pub fn name(self) -> (r: &'static str)
        ensures
            r == self.spec_name(),
    {
        match self {
            AudioType::Undefined => "undefined",
            AudioType::CleanEffects => "clean effects",
            AudioType::HearingImpaired => "hearing impaired",
            AudioType::VisualImpairedCommentary => "visual impaired commentary",
            AudioType::UserPrivate(_) => "user private",
            AudioType::Primary => "primary",
            AudioType::Native => "native",
            AudioType::Emergency => "emergency",
            AudioType::PrimaryCommentary => "primary commentary",
            AudioType::AlternateCommentary => "alternate commentary",
            AudioType::Reserved(_) => "reserved",
        }
    }
}

/// One (language code, audio type) pair.
#[derive(Debug, Clone, PartialEq, Eq)]
pub struct LanguageEntry {
    /// Three-character ISO 639-2 language code.
    pub language_code: LangCode,
    /// Audio type.
    pub audio_type: AudioType,
}

impl LanguageEntry {
    /// `self` is what parsing the four entry bytes `t` yields.
    pub open spec fn decodes(&self, t: Seq<u8>) -> bool {
        code_bytes(self.language_code.0) == t.subrange(0, 3) && self.audio_type == AudioType::spec_from_u8(
            t[3],
        )
    }
}

/// The four bytes of an entry.
pub open spec fn entry_wire() -> spec_fn(LanguageEntry) -> Seq<u8> {
    |e: LanguageEntry| code_bytes(e.language_code.0) + seq![e.audio_type.spec_to_u8()]
}

/// ISO 639 Language Descriptor.
#[derive(Debug, Clone, PartialEq, Eq)]
pub struct Iso639LanguageDescriptor {
    /// The language entries in wire order.
    pub entries: Vec<LanguageEntry>,
}

impl Iso639LanguageDescriptor {
    /// Parsing succeeds on exactly these bytes.
    pub open spec fn bytes_ok(s: Seq<u8>) -> bool {
        header_ok(s, TAG) && body_of(s).len() % 4 == 0
    }

    /// The error reported for bytes that do not parse.
    pub open spec fn bytes_error(e: Error, s: Seq<u8>) -> bool {
        if header_ok(s, TAG) {
            is_invalid(e, TAG)
        } else {
            header_error(e, s, TAG)
        }
    }

    /// `self` is what parsing the body `b` yields: one entry per four bytes.
    pub open spec fn decodes(&self, b: Seq<u8>) -> bool {
        &&& self.entries@.len() * 4 == b.len()
        &&& forall|i: int|
            0 <= i < self.entries@.len() ==> #[trigger] self.entries@[i].decodes(b.subrange(4 * i, 4 * i + 4))
    }

    /// The body bytes.
    pub open spec fn body_bytes(&self) -> Seq<u8> {
        concat_map(self.entries@, entry_wire())
    }

    /// The complete wire encoding.
    pub open spec fn wire(&self) -> Seq<u8> {
        framed(TAG, self.body_bytes())
    }

    /// The entries' audio types are well formed and the body fits its length byte.
    pub open spec fn wf(&self) -> bool {
        &&& forall|i: int| 0 <= i < self.entries@.len() ==> (#[trigger] self.entries@[i]).audio_type.wf()
        &&& self.entries@.len() * 4 <= 255
    }

    proof fn lemma_body_len(&self)
        ensures
            self.body_bytes().len() == 4 * self.entries@.len(),
            forall|i: int|
                0 <= i < self.entries@.len() ==> self.body_bytes().subrange(4 * i, 4 * i + 4)
                    == #[trigger] entry_wire()(self.entries@[i]),
    {
        let es = self.entries@;
        assert forall|i: int| 0 <= i < es.len() implies #[trigger] entry_wire()(es[i]).len() == 4 by {}
        lemma_concat_map_fixed(es, entry_wire(), 4);
    }

    /// Parses an ISO 639 language descriptor from the front of `bytes`.
    pub fn parse(bytes: &[u8]) -> (r: Result<Self, Error>)
        ensures
            r is Ok <==> Self::bytes_ok(bytes@),
            r matches Ok(d) ==> d.decodes(body_of(bytes@)),
            r matches Err(e) ==> Self::bytes_error(e, bytes@),
    {
        let body = descriptor_body(
            bytes,
            TAG,
            "Iso639LanguageDescriptor",
            "unexpected tag for iso_639_language_descriptor",
        )?;
        if body.len() % ENTRY_LEN != 0 {
            return Err(
                Error::InvalidDescriptor { tag: TAG, reason: "iso_639_language_descriptor length not a multiple of 4" },
            );
        }
        let n = body.len() / ENTRY_LEN;
        let mut entries: Vec<LanguageEntry> = Vec::new();
        let mut i: usize = 0;
        while i < n
            invariant
                n * 4 == body.len(),
                i <= n,
                entries@.len() == i,
                forall|j: int| 0 <= j < i ==> #[trigger] entries@[j].decodes(body@.subrange(4 * j, 4 * j + 4)),
            decreases n - i,
        {
            assert(i * 4 + 4 <= n * 4) by (nonlinear_arith)
                requires
                    i < n,
            ;
            let p: usize = i * 4;
            let e = LanguageEntry { language_code: LangCode(read_code(body, p)), audio_type: AudioType::from_u8(body[p + 3]) };
            assert(e.decodes(body@.subrange(4 * i, 4 * i + 4))) by {
                assert(body@.subrange(p as int, p + 3) =~= body@.subrange(4 * i, 4 * i + 4).subrange(0, 3));
            }
            entries.push(e);
            i = i + 1;
        }
        Ok(Iso639LanguageDescriptor { entries })
    }

    /// Length of the wire encoding.
    pub fn serialized_len(&self) -> (n: usize)
        requires
            self.wire().len() <= usize::MAX,
        ensures
            n == self.wire().len(),
    {
        proof {
            self.lemma_body_len();
        }
        HEADER_LEN + self.entries.len() * ENTRY_LEN
    }

    /// The `descriptor_length` byte: the body length, truncated to 8 bits.
    pub fn descriptor_length(&self) -> (n: u8)
        requires
            self.wire().len() <= usize::MAX,
        ensures
            n == (self.body_bytes().len() % 256) as u8,
    {
        proof {
            self.lemma_body_len();
        }
        ((self.entries.len() * ENTRY_LEN) % 256) as u8
    }

    fn encode(&self) -> (v: Vec<u8>)
        requires
            self.wire().len() <= usize::MAX,
        ensures
            v@ == self.wire(),
    {
        let mut v = Vec::new();
        push_u8(&mut v, TAG);
        push_u8(&mut v, self.descriptor_length());
        let ghost start = v@;
        let mut i: usize = 0;
        while i < self.entries.len()
            invariant
                i <= self.entries@.len(),
                v@ == start + concat_map(self.entries@.subrange(0, i as int), entry_wire()),
            decreases self.entries@.len() - i,
        {
            proof {
                lemma_concat_map_push(self.entries@.subrange(0, i as int), self.entries@[i as int], entry_wire());
                assert(self.entries@.subrange(0, i as int).push(self.entries@[i as int]) =~= self.entries@.subrange(0, i + 1));
            }
            push_code(&mut v, self.entries[i].language_code.0);
            push_u8(&mut v, self.entries[i].audio_type.to_u8());
            i = i + 1;
            assert(v@ =~= start + concat_map(self.entries@.subrange(0, i as int), entry_wire()));
        }
        assert(self.entries@.subrange(0, i as int) =~= self.entries@);
        assert(v@ =~= self.wire());
        v
    }

    /// Writes the descriptor to the front of `buf`.
    pub fn serialize_into(&self, buf: &mut [u8]) -> (r: Result<usize, Error>)
        requires
            self.wire().len() <= usize::MAX,
        ensures
            emitted(r, old(buf)@, final(buf)@, self.wire()),
    {
        let v = self.encode();
        emit(buf, &v)
    }
}

/// Encoding a well-formed ISO 639 language descriptor and parsing the bytes gives it back.
pub proof fn lemma_iso_639_language_encode_parse(d: Iso639LanguageDescriptor)
    requires
        d.wf(),
    ensures
        Iso639LanguageDescriptor::bytes_ok(d.wire()),
        d.decodes(body_of(d.wire())),
{
    d.lemma_body_len();
    lemma_framed_parses(TAG, d.body_bytes());
    let b = d.body_bytes();
    assert forall|i: int| 0 <= i < d.entries@.len() implies #[trigger] d.entries@[i].decodes(b.subrange(4 * i, 4 * i + 4)) by {
        let e = d.entries@[i];
        assert(b.subrange(4 * i, 4 * i + 4) == entry_wire()(e));
        assert(b.subrange(4 * i, 4 * i + 4).subrange(0, 3) =~= code_bytes(e.language_code.0));
        e.audio_type.lemma_to_from();
    }
}

/// Parsing an ISO 639 language descriptor and encoding the result gives back its bytes.
pub proof fn lemma_iso_639_language_parse_encode(s: Seq<u8>, d: Iso639LanguageDescriptor)
    requires
        Iso639LanguageDescriptor::bytes_ok(s),
        d.decodes(body_of(s)),
    ensures
        d.wire() == framed_prefix(s),
        d.wf(),
{
    let b = body_of(s);
    let es = d.entries@;
    assert forall|i: int| 0 <= i < es.len() implies #[trigger] entry_wire()(es[i]) == b.subrange(4 * i, 4 * i + 4) by {
        let t = b.subrange(4 * i, 4 * i + 4);
        assert(es[i].decodes(t));
        AudioType::lemma_from_to(t[3]);
        assert(entry_wire()(es[i]) =~= t);
    }
    lemma_concat_map_blocks(es, entry_wire(), 4, b);
    lemma_reframe(s, TAG);
    assert forall|i: int| 0 <= i < es.len() implies (#[trigger] es[i]).audio_type.wf() by {
        let t = b.subrange(4 * i, 4 * i + 4);
        assert(es[i].decodes(t));
        AudioType::lemma_from_to(t[3]);
    }
}

/// A parsed Iso639LanguageDescriptor is well formed: it encodes again, and parsing that encoding
/// yields it back.
pub proof fn lemma_iso_639_language_reparse(s: Seq<u8>, d: Iso639LanguageDescriptor)
    requires
        Iso639LanguageDescriptor::bytes_ok(s),
        d.decodes(body_of(s)),
    ensures
        d.wf(),
        Iso639LanguageDescriptor::bytes_ok(d.wire()),
        d.decodes(body_of(d.wire())),
{
    lemma_iso_639_language_parse_encode(s, d);
    lemma_iso_639_language_encode_parse(d);
}

/// Parsing, encoding and parsing again gives the same value: whatever parses
/// from the encoding of a parsed Iso639LanguageDescriptor holds the same entries and equals it
/// otherwise.
pub proof fn lemma_iso_639_language_round_trip(s: Seq<u8>, d: Iso639LanguageDescriptor, d2: Iso639LanguageDescriptor)
    requires
        Iso639LanguageDescriptor::bytes_ok(s),
        d.decodes(body_of(s)),
        d2.decodes(body_of(d.wire())),
    ensures
        d2.entries@ == d.entries@,
        d2 == (Iso639LanguageDescriptor { entries: d2.entries, ..d }),
{
    lemma_iso_639_language_reparse(s, d);
    let w = body_of(d.wire());
    assert forall|i: int| 0 <= i < d.entries@.len() implies d2.entries@[i] == d.entries@[i] by {
        assert(d2.entries@[i].decodes(w.subrange(4 * i, 4 * i + 4)));
        assert(d.entries@[i].decodes(w.subrange(4 * i, 4 * i + 4)));
        crate::wire::lemma_code_bytes_injective(d2.entries@[i].language_code.0, d.entries@[i].language_code.0);
    }
    assert(d2.entries@ =~= d.entries@);
}

impl AudioType {
    /// The ISO/IEC 13818-1 audio_type codes: each code and the variant it stands for, in literal values.
    pub proof fn lemma_codes()
        ensures
            AudioType::spec_from_u8(0) == AudioType::Undefined,
            AudioType::spec_from_u8(1) == AudioType::CleanEffects,
            AudioType::spec_from_u8(2) == AudioType::HearingImpaired,
            AudioType::spec_from_u8(3) == AudioType::VisualImpairedCommentary,
            AudioType::spec_from_u8(128) == AudioType::Primary,
            AudioType::spec_from_u8(129) == AudioType::Native,
            AudioType::spec_from_u8(130) == AudioType::Emergency,
            AudioType::spec_from_u8(131) == AudioType::PrimaryCommentary,
            AudioType::spec_from_u8(132) == AudioType::AlternateCommentary,
            AudioType::Undefined.spec_to_u8() == 0,
            AudioType::CleanEffects.spec_to_u8() == 1,
            AudioType::HearingImpaired.spec_to_u8() == 2,
            AudioType::VisualImpairedCommentary.spec_to_u8() == 3,
            AudioType::Primary.spec_to_u8() == 128,
            AudioType::Native.spec_to_u8() == 129,
            AudioType::Emergency.spec_to_u8() == 130,
            AudioType::PrimaryCommentary.spec_to_u8() == 131,
            AudioType::AlternateCommentary.spec_to_u8() == 132,
            forall|v: u8| 0x04 <= v <= 0x7F ==> #[trigger] AudioType::spec_from_u8(v) == AudioType::UserPrivate(v),
            forall|v: u8| v >= 0x85 ==> #[trigger] AudioType::spec_from_u8(v) == AudioType::Reserved(v),
            forall|v: u8| #[trigger] AudioType::UserPrivate(v).spec_to_u8() == v,
            forall|v: u8| #[trigger] AudioType::Reserved(v).spec_to_u8() == v,
    {
    }
}

/// The audio_type of each entry of a parsed ISO 639 language descriptor, in the
/// literal codes of ISO/IEC 13818-1: 0x00 undefined, 0x01 clean effects, 0x02
/// hearing impaired, 0x03 visual impaired commentary, 0x04-0x7F user private,
/// 0x80 primary, 0x81 native, 0x82 emergency, 0x83 primary commentary, 0x84
/// alternate commentary, 0x85 and above reserved.
pub proof fn lemma_iso_639_audio_type_codes(b: Seq<u8>, d: Iso639LanguageDescriptor, i: int)
    requires
        d.decodes(b),
        0 <= i < d.entries@.len(),
    ensures
        b[4 * i + 3] == 0 ==> d.entries@[i].audio_type == AudioType::Undefined,
        b[4 * i + 3] == 1 ==> d.entries@[i].audio_type == AudioType::CleanEffects,
        b[4 * i + 3] == 2 ==> d.entries@[i].audio_type == AudioType::HearingImpaired,
        b[4 * i + 3] == 3 ==> d.entries@[i].audio_type == AudioType::VisualImpairedCommentary,
        b[4 * i + 3] == 128 ==> d.entries@[i].audio_type == AudioType::Primary,
        b[4 * i + 3] == 129 ==> d.entries@[i].audio_type == AudioType::Native,
        b[4 * i + 3] == 130 ==> d.entries@[i].audio_type == AudioType::Emergency,
        b[4 * i + 3] == 131 ==> d.entries@[i].audio_type == AudioType::PrimaryCommentary,
        b[4 * i + 3] == 132 ==> d.entries@[i].audio_type == AudioType::AlternateCommentary,
        0x04 <= b[4 * i + 3] <= 0x7F ==> d.entries@[i].audio_type == AudioType::UserPrivate(b[4 * i + 3]),
        b[4 * i + 3] >= 0x85 ==> d.entries@[i].audio_type == AudioType::Reserved(b[4 * i + 3]),
{
    assert(d.entries@[i].decodes(b.subrange(4 * i, 4 * i + 4)));
}

} // verus!
