//! Multilingual Component Descriptor — ETSI EN 300 468 §6.2.23 (tag 0x5E).
//!
//! Carried in the EIT / PMT. A component_tag followed by a loop of
//! (ISO 639-2 language code, text description) pairs, each text
//! length-prefixed by an 8-bit field.

use super::{body_of, descriptor_body, emit, emitted, framed, framed_prefix, header_error, header_ok, lemma_framed_parses, lemma_reframe, HEADER_LEN};
use crate::error::{is_invalid, Error};
use crate::runs::{lemma_run_of_encoded, lemma_run_push, lemma_run_reencodes, lemma_run_step, len_stable, run_all, run_decodes, run_ok, lemma_run_decodes_same};
use crate::text::{DvbText, LangCode};
use crate::wire::{code_bytes, concat_map, lemma_concat_map_prefix_len, lemma_concat_map_push, push_bytes, push_code, push_u8, read_code};
use vstd::prelude::*;

verus! {

/// Descriptor tag for multilingual_component_descriptor.
pub const TAG: u8 = 0x5E;

/// Length of the component_tag field.
const COMPONENT_TAG_LEN: usize = 1;

/// Length of an ISO 639 language code.
const LANG_LEN: usize = 3;

/// Length of the text_length field.
const TEXT_LEN_FIELD: usize = 1;

/// One (language, text description) pair.
#[derive(Debug, Clone, PartialEq, Eq)]
pub struct ComponentTextEntry<'a> {
    /// ISO 639-2 language code.
    pub language_code: LangCode,
    /// Component description in that language.
    pub text: DvbText<'a>,
}

/// Size of the entry at the front of `t`.
pub open spec fn mct_entry_len(t: Seq<u8>) -> int {
    if t.len() < 4 {
        4
    } else {
        4 + t[3]
    }
}

pub open spec fn mct_len_fn() -> spec_fn(Seq<u8>) -> int {
    |t: Seq<u8>| mct_entry_len(t)
}

pub open spec fn mct_dec_fn<'a>() -> spec_fn(ComponentTextEntry<'a>, Seq<u8>) -> bool {
    |e: ComponentTextEntry<'a>, t: Seq<u8>| t.len() >= 4 && mct_entry_len(t) == t.len() && e.decodes(t)
}

pub open spec fn mct_enc_fn<'a>() -> spec_fn(ComponentTextEntry<'a>) -> Seq<u8> {
    |e: ComponentTextEntry<'a>| e.wire()
}

pub open spec fn mct_canon_fn() -> spec_fn(Seq<u8>) -> bool {
    |t: Seq<u8>| true
}

pub open spec fn mct_good_fn<'a>() -> spec_fn(ComponentTextEntry<'a>) -> bool {
    |e: ComponentTextEntry<'a>| e.wf()
}

pub proof fn lemma_mct_len_stable()
    ensures
        len_stable(mct_len_fn()),
{
    assert forall|a: Seq<u8>, b: Seq<u8>|
        0 < mct_len_fn()(a) <= a.len() implies #[trigger] mct_len_fn()(a + b) == mct_len_fn()(a) by {
        assert((a + b)[3] == a[3]);
    }
}

impl<'a> ComponentTextEntry<'a> {
    /// `self` is what parsing the entry bytes `t` yields.
    pub open spec fn decodes(&self, t: Seq<u8>) -> bool {
        code_bytes(self.language_code.0) == t.subrange(0, 3) && self.text@ == t.subrange(4, t.len() as int)
    }

    /// The entry bytes.
    pub open spec fn wire(&self) -> Seq<u8> {
        code_bytes(self.language_code.0) + seq![(self.text@.len() % 256) as u8] + self.text@
    }

    /// The text fits its length byte.
    pub open spec fn wf(&self) -> bool {
        self.text@.len() <= 255
    }
}

proof fn lemma_mct_entry_encode_parse(e: ComponentTextEntry)
    requires
        e.wf(),
    ensures
        4 <= mct_entry_len(e.wire()) == e.wire().len(),
        e.decodes(e.wire()),
{
    let w = e.wire();
    assert(w.subrange(0, 3) =~= code_bytes(e.language_code.0));
    assert(w.subrange(4, w.len() as int) =~= e.text@);
}

proof fn lemma_mct_entry_parse_encode(t: Seq<u8>, e: ComponentTextEntry)
    requires
        t.len() >= 4,
        mct_entry_len(t) == t.len(),
        e.decodes(t),
    ensures
        e.wire() == t,
        e.wf(),
{
    assert(e.wire() =~= t);
}

/// Multilingual Component Descriptor.
#[derive(Debug, Clone, PartialEq, Eq)]
pub struct MultilingualComponentDescriptor<'a> {
    /// component_tag(8): the component the texts describe.
    pub component_tag: u8,
    /// The texts in wire order.
    pub entries: Vec<ComponentTextEntry<'a>>,
}

impl<'a> MultilingualComponentDescriptor<'a> {
    /// Parsing succeeds on exactly these bytes.
    pub open spec fn bytes_ok(s: Seq<u8>) -> bool {
        header_ok(s, TAG) && s[1] >= 1 && run_ok(Self::loop_bytes(body_of(s)), mct_len_fn())
    }

    /// The text loop of the body `b`.
    pub open spec fn loop_bytes(b: Seq<u8>) -> Seq<u8> {
        b.subrange(1, b.len() as int)
    }

    /// The error reported for bytes that do not parse.
    pub open spec fn bytes_error(e: Error, s: Seq<u8>) -> bool {
        if header_ok(s, TAG) {
            is_invalid(e, TAG)
        } else {
            header_error(e, s, TAG)
        }
    }

    /// `self` is what parsing the body `b` yields.
    pub open spec fn decodes(&self, b: Seq<u8>) -> bool {
        self.component_tag == b[0] && run_decodes(self.entries@, Self::loop_bytes(b), mct_len_fn(), mct_dec_fn())
    }

    /// The text loop bytes.
    pub open spec fn loop_wire(&self) -> Seq<u8> {
        concat_map(self.entries@, mct_enc_fn())
    }

    /// The body bytes.
    pub open spec fn body_bytes(&self) -> Seq<u8> {
        seq![self.component_tag] + self.loop_wire()
    }

    /// The complete wire encoding.
    pub open spec fn wire(&self) -> Seq<u8> {
        framed(TAG, self.body_bytes())
    }

    /// Every text fits its length byte and the body fits the descriptor length byte.
    pub open spec fn wf(&self) -> bool {
        &&& forall|i: int| 0 <= i < self.entries@.len() ==> #[trigger] self.entries@[i].wf()
        &&& self.body_bytes().len() <= 255
    }

    /// Parses a multilingual component descriptor from the front of `bytes`.
    pub fn parse(bytes: &'a [u8]) -> (r: Result<Self, Error>)
        ensures
            r is Ok <==> Self::bytes_ok(bytes@),
            r matches Ok(d) ==> d.decodes(body_of(bytes@)),
            r matches Err(e) ==> Self::bytes_error(e, bytes@),
    {
        let whole = descriptor_body(
            bytes,
            TAG,
            "MultilingualComponentDescriptor",
            "unexpected tag for multilingual_component_descriptor",
        )?;
        if whole.len() < COMPONENT_TAG_LEN {
            return Err(
                Error::InvalidDescriptor { tag: TAG, reason: "multilingual_component_descriptor body missing component_tag" },
            );
        }
        let component_tag = whole[0];
        let body = &whole[COMPONENT_TAG_LEN..whole.len()];
        let ghost b = body@;
        proof {
            lemma_mct_len_stable();
            assert(b =~= Self::loop_bytes(body_of(bytes@)));
            assert(b.subrange(0, 0) =~= Seq::<u8>::empty());
            assert(b.subrange(0, b.len() as int) =~= b);
        }
        let mut pos: usize = 0;
        let mut entries: Vec<ComponentTextEntry<'a>> = Vec::new();
        while pos < body.len()
            invariant
                pos <= body.len(),
                b == body@,
                header_ok(bytes@, TAG),
                bytes@[1] >= 1,
                b == Self::loop_bytes(body_of(bytes@)),
                len_stable(mct_len_fn()),
                run_ok(b, mct_len_fn()) == run_ok(b.subrange(pos as int, b.len() as int), mct_len_fn()),
                run_decodes(entries@, b.subrange(0, pos as int), mct_len_fn(), mct_dec_fn()),
            decreases body.len() - pos,
        {
            let ghost t = b.subrange(pos as int, b.len() as int);
            if body.len() - pos < LANG_LEN + TEXT_LEN_FIELD {
                proof {
                    assert(mct_len_fn()(t) > t.len());
                }
                return Err(Error::InvalidDescriptor { tag: TAG, reason: "entry header runs past descriptor end" });
            }
            let language_code = LangCode(read_code(body, pos));
            let text_len = body[pos + LANG_LEN] as usize;
            assert(t[3] == text_len);
            let text_start = pos + LANG_LEN + TEXT_LEN_FIELD;
            if body.len() - text_start < text_len {
                proof {
                    assert(mct_len_fn()(t) > t.len());
                }
                return Err(Error::InvalidDescriptor { tag: TAG, reason: "text_length runs past descriptor end" });
            }
            let text_end = text_start + text_len;
            let e = ComponentTextEntry { language_code, text: DvbText::new(&body[text_start..text_end]) };
            proof {
                lemma_run_step(b, pos as int, mct_len_fn());
                let et = b.subrange(pos as int, text_end as int);
                assert(mct_len_fn()(et) == text_end - pos) by {
                    assert(et[3] == t[3]);
                }
                assert(e.decodes(et)) by {
                    assert(et.subrange(0, 3) =~= b.subrange(pos as int, pos + 3));
                    assert(et.subrange(4, et.len() as int) =~= body@.subrange(text_start as int, text_end as int));
                }
                lemma_run_push(entries@, b.subrange(0, pos as int), e, et, mct_len_fn(), mct_dec_fn());
                assert(b.subrange(0, pos as int) + et =~= b.subrange(0, text_end as int));
            }
            entries.push(e);
            pos = text_end;
        }
        proof {
            assert(b.subrange(0, pos as int) =~= b);
        }
        Ok(MultilingualComponentDescriptor { component_tag, entries })
    }

    /// Length of the wire encoding.
    pub fn serialized_len(&self) -> (n: usize)
        requires
            self.wire().len() <= usize::MAX,
        ensures
            n == self.wire().len(),
    {
        let mut total: usize = HEADER_LEN + COMPONENT_TAG_LEN;
        let mut i: usize = 0;
        while i < self.entries.len()
            invariant
                i <= self.entries@.len(),
                self.wire().len() <= usize::MAX,
                total == 3 + concat_map(self.entries@.subrange(0, i as int), mct_enc_fn()).len(),
            decreases self.entries@.len() - i,
        {
            proof {
                lemma_concat_map_push(self.entries@.subrange(0, i as int), self.entries@[i as int], mct_enc_fn());
                assert(self.entries@.subrange(0, i as int).push(self.entries@[i as int]) =~= self.entries@.subrange(0, i + 1));
                lemma_concat_map_prefix_len(self.entries@, i + 1, mct_enc_fn());
            }
            total = total + LANG_LEN + TEXT_LEN_FIELD + self.entries[i].text.len();
            i = i + 1;
        }
        assert(self.entries@.subrange(0, i as int) =~= self.entries@);
        total
    }

    /// The `descriptor_length` byte: the body length, truncated to 8 bits.
    pub fn descriptor_length(&self) -> (n: u8)
        requires
            self.wire().len() <= usize::MAX,
        ensures
            n == (self.body_bytes().len() % 256) as u8,
    {
        ((self.serialized_len() - HEADER_LEN) % 256) as u8
    }

    fn encode(&self) -> (v: Vec<u8>)
        requires
            self.wire().len() <= usize::MAX,
        ensures
            v@ == self.wire(),
    {
        let mut v = Vec::new();
        push_u8(&mut v, TAG);
        push_u8(&mut v, self.descriptor_length());
        push_u8(&mut v, self.component_tag);
        let ghost start = v@;
        let mut i: usize = 0;
        while i < self.entries.len()
            invariant
                i <= self.entries@.len(),
                v@ == start + concat_map(self.entries@.subrange(0, i as int), mct_enc_fn()),
            decreases self.entries@.len() - i,
        {
            proof {
                lemma_concat_map_push(self.entries@.subrange(0, i as int), self.entries@[i as int], mct_enc_fn());
                assert(self.entries@.subrange(0, i as int).push(self.entries@[i as int]) =~= self.entries@.subrange(0, i + 1));
            }
            let e = &self.entries[i];
            push_code(&mut v, e.language_code.0);
            push_u8(&mut v, (e.text.len() % 256) as u8);
            push_bytes(&mut v, e.text.raw());
            i = i + 1;
            assert(v@ =~= start + concat_map(self.entries@.subrange(0, i as int), mct_enc_fn()));
        }
        assert(self.entries@.subrange(0, i as int) =~= self.entries@);
        assert(v@ =~= self.wire());
        v
    }

    /// Writes the descriptor to the front of `buf`; a name or body too long for
    /// its length byte is refused before the buffer is looked at.
    pub fn serialize_into(&self, buf: &mut [u8]) -> (r: Result<usize, Error>)
        requires
            self.wire().len() <= usize::MAX,
        ensures
            self.wf() ==> emitted(r, old(buf)@, final(buf)@, self.wire()),
            !self.wf() ==> (r matches Err(e) && is_invalid(e, TAG)) && final(buf)@ == old(buf)@,
    {
        let mut i: usize = 0;
        while i < self.entries.len()
            invariant
                i <= self.entries@.len(),
                forall|j: int| 0 <= j < i ==> #[trigger] self.entries@[j].wf(),
            decreases self.entries@.len() - i,
        {
            if self.entries[i].text.len() > 255 {
                assert(!self.entries@[i as int].wf());
                return Err(
                    Error::InvalidDescriptor { tag: TAG, reason: "text exceeds 255 bytes (text_length is 8-bit)" },
                );
            }
            i = i + 1;
        }
        let len = self.serialized_len();
        if len - HEADER_LEN > 255 {
            return Err(
                Error::InvalidDescriptor { tag: TAG, reason: "multilingual_component_descriptor body exceeds 255 bytes" },
            );
        }
        let v = self.encode();
        emit(buf, &v)
    }
}

/// Encoding a well-formed multilingual component descriptor and parsing the bytes gives it back.
pub proof fn lemma_multilingual_component_encode_parse(d: MultilingualComponentDescriptor)
    requires
        d.wf(),
    ensures
        MultilingualComponentDescriptor::bytes_ok(d.wire()),
        d.decodes(body_of(d.wire())),
{
    lemma_mct_len_stable();
    let es = d.entries@;
    assert forall|i: int| 0 <= i < es.len() implies 0 < mct_len_fn()(#[trigger] mct_enc_fn()(es[i]))
        == mct_enc_fn()(es[i]).len() && mct_dec_fn()(es[i], mct_enc_fn()(es[i])) by {
        assert(es[i].wf());
        lemma_mct_entry_encode_parse(es[i]);
    }
    lemma_run_of_encoded(es, mct_len_fn(), mct_dec_fn(), mct_enc_fn());
    lemma_framed_parses(TAG, d.body_bytes());
    assert(MultilingualComponentDescriptor::loop_bytes(d.body_bytes()) =~= d.loop_wire());
}

/// Parsing a multilingual component descriptor and encoding the result gives back its bytes.
pub proof fn lemma_multilingual_component_parse_encode(s: Seq<u8>, d: MultilingualComponentDescriptor)
    requires
        MultilingualComponentDescriptor::bytes_ok(s),
        d.decodes(body_of(s)),
    ensures
        d.wire() == framed_prefix(s),
        d.wf(),
{
    let b = MultilingualComponentDescriptor::loop_bytes(body_of(s));
    assert forall|e: ComponentTextEntry, t: Seq<u8>| #[trigger] mct_dec_fn()(e, t) && mct_canon_fn()(t) implies mct_enc_fn()(e)
        == t && mct_good_fn()(e) by {
        lemma_mct_entry_parse_encode(t, e);
    }
    lemma_run_all_true(b);
    lemma_run_reencodes(d.entries@, b, mct_len_fn(), mct_dec_fn(), mct_enc_fn(), mct_canon_fn(), mct_good_fn());
    assert forall|i: int| 0 <= i < d.entries@.len() implies #[trigger] d.entries@[i].wf() by {
        assert(mct_good_fn()(d.entries@[i]));
    }
    lemma_reframe(s, TAG);
    assert(d.body_bytes() =~= body_of(s));
}

/// Every entry of a run that splits satisfies the trivial property.
proof fn lemma_run_all_true(s: Seq<u8>)
    requires
        run_ok(s, mct_len_fn()),
    ensures
        run_all(s, mct_len_fn(), mct_canon_fn()),
    decreases s.len(),
{
    if s.len() > 0 {
        let l = mct_len_fn()(s);
        lemma_run_all_true(s.subrange(l, s.len() as int));
    }
}

/// A parsed MultilingualComponentDescriptor is well formed: it encodes again, and parsing that encoding
/// yields it back.
pub proof fn lemma_multilingual_component_reparse(s: Seq<u8>, d: MultilingualComponentDescriptor)
    requires
        MultilingualComponentDescriptor::bytes_ok(s),
        d.decodes(body_of(s)),
    ensures
        d.wf(),
        MultilingualComponentDescriptor::bytes_ok(d.wire()),
        d.decodes(body_of(d.wire())),
{
    lemma_multilingual_component_parse_encode(s, d);
    lemma_multilingual_component_encode_parse(d);
}

pub open spec fn mct_same_fn<'a>() -> spec_fn(ComponentTextEntry<'a>, ComponentTextEntry<'a>) -> bool {
    |a: ComponentTextEntry<'a>, b: ComponentTextEntry<'a>| a == b
}

/// Parsing, encoding and parsing again gives the same value: whatever parses
/// from the encoding of a parsed MultilingualComponentDescriptor holds the same entries and equals it
/// otherwise.
pub proof fn lemma_multilingual_component_round_trip(s: Seq<u8>, d: MultilingualComponentDescriptor, d2: MultilingualComponentDescriptor)
    requires
        MultilingualComponentDescriptor::bytes_ok(s),
        d.decodes(body_of(s)),
        d2.decodes(body_of(d.wire())),
    ensures
        d2.entries@ == d.entries@,
        d2 == (MultilingualComponentDescriptor { entries: d2.entries, ..d }),
{
    lemma_multilingual_component_reparse(s, d);
    let w = body_of(d.wire());
    assert forall|a: ComponentTextEntry, b: ComponentTextEntry, t: Seq<u8>|
        #![trigger mct_dec_fn()(a, t), mct_dec_fn()(b, t)]
        mct_dec_fn()(a, t) && mct_dec_fn()(b, t) implies mct_same_fn()(a, b) by {
        crate::wire::lemma_code_bytes_injective(a.language_code.0, b.language_code.0);
        DvbText::lemma_view_eq(a.text, b.text);
    }
    lemma_run_decodes_same(d2.entries@, d.entries@, MultilingualComponentDescriptor::loop_bytes(w), mct_len_fn(), mct_dec_fn(), mct_same_fn());
    assert forall|i: int| 0 <= i < d.entries@.len() implies d2.entries@[i] == d.entries@[i] by {
        assert(mct_same_fn()(d2.entries@[i], d.entries@[i]));
    }
    assert(d2.entries@ =~= d.entries@);
}

} // verus!
