//! Multilingual Bouquet Name Descriptor — ETSI EN 300 468 §6.2.22 (tag 0x5C).
//!
//! Carried in the BAT. A loop of (ISO 639-2 language code, bouquet name)
//! pairs, each name length-prefixed by an 8-bit field.

use super::{body_of, descriptor_body, emit, emitted, framed, framed_prefix, header_error, header_ok, lemma_framed_parses, lemma_reframe, HEADER_LEN};
use crate::error::{is_invalid, Error};
use crate::runs::{lemma_run_of_encoded, lemma_run_push, lemma_run_reencodes, lemma_run_step, len_stable, run_all, run_decodes, run_ok, lemma_run_decodes_same};
use crate::text::{DvbText, LangCode};
use crate::wire::{code_bytes, concat_map, lemma_concat_map_prefix_len, lemma_concat_map_push, push_bytes, push_code, push_u8, read_code};
use vstd::prelude::*;

verus! {

/// Descriptor tag for multilingual_bouquet_name_descriptor.
pub const TAG: u8 = 0x5C;

/// Length of an ISO 639 language code.
const LANG_LEN: usize = 3;

/// Length of the name_length field.
const NAME_LEN_FIELD: usize = 1;

/// One (language, bouquet name) pair.
#[derive(Debug, Clone, PartialEq, Eq)]
pub struct BouquetNameEntry<'a> {
    /// ISO 639-2 language code.
    pub language_code: LangCode,
    /// Bouquet name in that language.
    pub bouquet_name: DvbText<'a>,
}

/// Size of the entry at the front of `t`.
pub open spec fn mbn_entry_len(t: Seq<u8>) -> int {
    if t.len() < 4 {
        4
    } else {
        4 + t[3]
    }
}

pub open spec fn mbn_len_fn() -> spec_fn(Seq<u8>) -> int {
    |t: Seq<u8>| mbn_entry_len(t)
}

pub open spec fn mbn_dec_fn<'a>() -> spec_fn(BouquetNameEntry<'a>, Seq<u8>) -> bool {
    |e: BouquetNameEntry<'a>, t: Seq<u8>| t.len() >= 4 && mbn_entry_len(t) == t.len() && e.decodes(t)
}

pub open spec fn mbn_enc_fn<'a>() -> spec_fn(BouquetNameEntry<'a>) -> Seq<u8> {
    |e: BouquetNameEntry<'a>| e.wire()
}

pub open spec fn mbn_canon_fn() -> spec_fn(Seq<u8>) -> bool {
    |t: Seq<u8>| true
}

pub open spec fn mbn_good_fn<'a>() -> spec_fn(BouquetNameEntry<'a>) -> bool {
    |e: BouquetNameEntry<'a>| e.wf()
}

pub proof fn lemma_mbn_len_stable()
    ensures
        len_stable(mbn_len_fn()),
{
    assert forall|a: Seq<u8>, b: Seq<u8>|
        0 < mbn_len_fn()(a) <= a.len() implies #[trigger] mbn_len_fn()(a + b) == mbn_len_fn()(a) by {
        assert((a + b)[3] == a[3]);
    }
}

impl<'a> BouquetNameEntry<'a> {
    /// `self` is what parsing the entry bytes `t` yields.
    pub open spec fn decodes(&self, t: Seq<u8>) -> bool {
        code_bytes(self.language_code.0) == t.subrange(0, 3) && self.bouquet_name@ == t.subrange(4, t.len() as int)
    }

    /// The entry bytes.
    pub open spec fn wire(&self) -> Seq<u8> {
        code_bytes(self.language_code.0) + seq![(self.bouquet_name@.len() % 256) as u8] + self.bouquet_name@
    }

    /// The name fits its length byte.
    pub open spec fn wf(&self) -> bool {
        self.bouquet_name@.len() <= 255
    }
}

proof fn lemma_mbn_entry_encode_parse(e: BouquetNameEntry)
    requires
        e.wf(),
    ensures
        4 <= mbn_entry_len(e.wire()) == e.wire().len(),
        e.decodes(e.wire()),
{
    let w = e.wire();
    assert(w.subrange(0, 3) =~= code_bytes(e.language_code.0));
    assert(w.subrange(4, w.len() as int) =~= e.bouquet_name@);
}

proof fn lemma_mbn_entry_parse_encode(t: Seq<u8>, e: BouquetNameEntry)
    requires
        t.len() >= 4,
        mbn_entry_len(t) == t.len(),
        e.decodes(t),
    ensures
        e.wire() == t,
        e.wf(),
{
    assert(e.wire() =~= t);
}

/// Multilingual Bouquet Name Descriptor.
#[derive(Debug, Clone, PartialEq, Eq)]
pub struct MultilingualBouquetNameDescriptor<'a> {
    /// The names in wire order.
    pub entries: Vec<BouquetNameEntry<'a>>,
}

impl<'a> MultilingualBouquetNameDescriptor<'a> {
    /// Parsing succeeds on exactly these bytes.
    pub open spec fn bytes_ok(s: Seq<u8>) -> bool {
        header_ok(s, TAG) && run_ok(body_of(s), mbn_len_fn())
    }

    /// The error reported for bytes that do not parse.
    pub open spec fn bytes_error(e: Error, s: Seq<u8>) -> bool {
        if header_ok(s, TAG) {
            is_invalid(e, TAG)
        } else {
            header_error(e, s, TAG)
        }
    }

    /// `self` is what parsing the body `b` yields.
    pub open spec fn decodes(&self, b: Seq<u8>) -> bool {
        run_decodes(self.entries@, b, mbn_len_fn(), mbn_dec_fn())
    }

    /// The body bytes.
    pub open spec fn body_bytes(&self) -> Seq<u8> {
        concat_map(self.entries@, mbn_enc_fn())
    }

    /// The complete wire encoding.
    pub open spec fn wire(&self) -> Seq<u8> {
        framed(TAG, self.body_bytes())
    }

    /// Every name fits its length byte and the body fits the descriptor length byte.
    pub open spec fn wf(&self) -> bool {
        &&& forall|i: int| 0 <= i < self.entries@.len() ==> #[trigger] self.entries@[i].wf()
        &&& self.body_bytes().len() <= 255
    }

    /// Parses a multilingual bouquet name descriptor from the front of `bytes`.
    pub fn parse(bytes: &'a [u8]) -> (r: Result<Self, Error>)
        ensures
            r is Ok <==> Self::bytes_ok(bytes@),
            r matches Ok(d) ==> d.decodes(body_of(bytes@)),
            r matches Err(e) ==> Self::bytes_error(e, bytes@),
    {
        let body = descriptor_body(
            bytes,
            TAG,
            "MultilingualBouquetNameDescriptor",
            "unexpected tag for multilingual_bouquet_name_descriptor",
        )?;
        let ghost b = body@;
        proof {
            lemma_mbn_len_stable();
            assert(b.subrange(0, 0) =~= Seq::<u8>::empty());
            assert(b.subrange(0, b.len() as int) =~= b);
        }
        let mut pos: usize = 0;
        let mut entries: Vec<BouquetNameEntry<'a>> = Vec::new();
        while pos < body.len()
            invariant
                pos <= body.len(),
                b == body@,
                header_ok(bytes@, TAG),
                b == body_of(bytes@),
                len_stable(mbn_len_fn()),
                run_ok(b, mbn_len_fn()) == run_ok(b.subrange(pos as int, b.len() as int), mbn_len_fn()),
                run_decodes(entries@, b.subrange(0, pos as int), mbn_len_fn(), mbn_dec_fn()),
            decreases body.len() - pos,
        {
            let ghost t = b.subrange(pos as int, b.len() as int);
            if body.len() - pos < LANG_LEN + NAME_LEN_FIELD {
                proof {
                    assert(mbn_len_fn()(t) > t.len());
                }
                return Err(Error::InvalidDescriptor { tag: TAG, reason: "entry header runs past descriptor end" });
            }
            let language_code = LangCode(read_code(body, pos));
            let name_len = body[pos + LANG_LEN] as usize;
            assert(t[3] == name_len);
            let name_start = pos + LANG_LEN + NAME_LEN_FIELD;
            if body.len() - name_start < name_len {
                proof {
                    assert(mbn_len_fn()(t) > t.len());
                }
                return Err(Error::InvalidDescriptor { tag: TAG, reason: "name_length runs past descriptor end" });
            }
            let name_end = name_start + name_len;
            let e = BouquetNameEntry { language_code, bouquet_name: DvbText::new(&body[name_start..name_end]) };
            proof {
                lemma_run_step(b, pos as int, mbn_len_fn());
                let et = b.subrange(pos as int, name_end as int);
                assert(mbn_len_fn()(et) == name_end - pos) by {
                    assert(et[3] == t[3]);
                }
                assert(e.decodes(et)) by {
                    assert(et.subrange(0, 3) =~= b.subrange(pos as int, pos + 3));
                    assert(et.subrange(4, et.len() as int) =~= body@.subrange(name_start as int, name_end as int));
                }
                lemma_run_push(entries@, b.subrange(0, pos as int), e, et, mbn_len_fn(), mbn_dec_fn());
                assert(b.subrange(0, pos as int) + et =~= b.subrange(0, name_end as int));
            }
            entries.push(e);
            pos = name_end;
        }
        proof {
            assert(b.subrange(0, pos as int) =~= b);
        }
        Ok(MultilingualBouquetNameDescriptor { entries })
    }

    /// Length of the wire encoding.
    pub fn serialized_len(&self) -> (n: usize)
        requires
            self.wire().len() <= usize::MAX,
        ensures
            n == self.wire().len(),
    {
        let mut total: usize = HEADER_LEN;
        let mut i: usize = 0;
        while i < self.entries.len()
            invariant
                i <= self.entries@.len(),
                self.wire().len() <= usize::MAX,
                total == 2 + concat_map(self.entries@.subrange(0, i as int), mbn_enc_fn()).len(),
            decreases self.entries@.len() - i,
        {
            proof {
                lemma_concat_map_push(self.entries@.subrange(0, i as int), self.entries@[i as int], mbn_enc_fn());
                assert(self.entries@.subrange(0, i as int).push(self.entries@[i as int]) =~= self.entries@.subrange(0, i + 1));
                lemma_concat_map_prefix_len(self.entries@, i + 1, mbn_enc_fn());
            }
            total = total + LANG_LEN + NAME_LEN_FIELD + self.entries[i].bouquet_name.len();
            i = i + 1;
        }
        assert(self.entries@.subrange(0, i as int) =~= self.entries@);
        total
    }

    /// The `descriptor_length` byte: the body length, truncated to 8 bits.
    pub fn descriptor_length(&self) -> (n: u8)
        requires
            self.wire().len() <= usize::MAX,
        ensures
            n == (self.body_bytes().len() % 256) as u8,
    {
        ((self.serialized_len() - HEADER_LEN) % 256) as u8
    }

    fn encode(&self) -> (v: Vec<u8>)
        requires
            self.wire().len() <= usize::MAX,
        ensures
            v@ == self.wire(),
    {
        let mut v = Vec::new();
        push_u8(&mut v, TAG);
        push_u8(&mut v, self.descriptor_length());
        let ghost start = v@;
        let mut i: usize = 0;
        while i < self.entries.len()
            invariant
                i <= self.entries@.len(),
                v@ == start + concat_map(self.entries@.subrange(0, i as int), mbn_enc_fn()),
            decreases self.entries@.len() - i,
        {
            proof {
                lemma_concat_map_push(self.entries@.subrange(0, i as int), self.entries@[i as int], mbn_enc_fn());
                assert(self.entries@.subrange(0, i as int).push(self.entries@[i as int]) =~= self.entries@.subrange(0, i + 1));
            }
            let e = &self.entries[i];
            push_code(&mut v, e.language_code.0);
            push_u8(&mut v, (e.bouquet_name.len() % 256) as u8);
            push_bytes(&mut v, e.bouquet_name.raw());
            i = i + 1;
            assert(v@ =~= start + concat_map(self.entries@.subrange(0, i as int), mbn_enc_fn()));
        }
        assert(self.entries@.subrange(0, i as int) =~= self.entries@);
        assert(v@ =~= self.wire());
        v
    }

    /// Writes the descriptor to the front of `buf`; a name or body too long for
    /// its length byte is refused before the buffer is looked at.
    pub fn serialize_into(&self, buf: &mut [u8]) -> (r: Result<usize, Error>)
        requires
            self.wire().len() <= usize::MAX,
        ensures
            self.wf() ==> emitted(r, old(buf)@, final(buf)@, self.wire()),
            !self.wf() ==> (r matches Err(e) && is_invalid(e, TAG)) && final(buf)@ == old(buf)@,
    {
        let mut i: usize = 0;
        while i < self.entries.len()
            invariant
                i <= self.entries@.len(),
                forall|j: int| 0 <= j < i ==> #[trigger] self.entries@[j].wf(),
            decreases self.entries@.len() - i,
        {
            if self.entries[i].bouquet_name.len() > 255 {
                assert(!self.entries@[i as int].wf());
                return Err(
                    Error::InvalidDescriptor { tag: TAG, reason: "bouquet_name exceeds 255 bytes (name_length is 8-bit)" },
                );
            }
            i = i + 1;
        }
        let len = self.serialized_len();
        if len - HEADER_LEN > 255 {
            return Err(
                Error::InvalidDescriptor { tag: TAG, reason: "multilingual_bouquet_name_descriptor body exceeds 255 bytes" },
            );
        }
        let v = self.encode();
        emit(buf, &v)
    }
}

/// Encoding a well-formed multilingual bouquet name descriptor and parsing the bytes gives it back.
pub proof fn lemma_multilingual_bouquet_name_encode_parse(d: MultilingualBouquetNameDescriptor)
    requires
        d.wf(),
    ensures
        MultilingualBouquetNameDescriptor::bytes_ok(d.wire()),
        d.decodes(body_of(d.wire())),
{
    lemma_mbn_len_stable();
    let es = d.entries@;
    assert forall|i: int| 0 <= i < es.len() implies 0 < mbn_len_fn()(#[trigger] mbn_enc_fn()(es[i]))
        == mbn_enc_fn()(es[i]).len() && mbn_dec_fn()(es[i], mbn_enc_fn()(es[i])) by {
        assert(es[i].wf());
        lemma_mbn_entry_encode_parse(es[i]);
    }
    lemma_run_of_encoded(es, mbn_len_fn(), mbn_dec_fn(), mbn_enc_fn());
    lemma_framed_parses(TAG, d.body_bytes());
}

/// Parsing a multilingual bouquet name descriptor and encoding the result gives back its bytes.
pub proof fn lemma_multilingual_bouquet_name_parse_encode(s: Seq<u8>, d: MultilingualBouquetNameDescriptor)
    requires
        MultilingualBouquetNameDescriptor::bytes_ok(s),
        d.decodes(body_of(s)),
    ensures
        d.wire() == framed_prefix(s),
        d.wf(),
{
    let b = body_of(s);
    assert forall|e: BouquetNameEntry, t: Seq<u8>| #[trigger] mbn_dec_fn()(e, t) && mbn_canon_fn()(t) implies mbn_enc_fn()(e)
        == t && mbn_good_fn()(e) by {
        lemma_mbn_entry_parse_encode(t, e);
    }
    lemma_run_all_true(b);
    lemma_run_reencodes(d.entries@, b, mbn_len_fn(), mbn_dec_fn(), mbn_enc_fn(), mbn_canon_fn(), mbn_good_fn());
    assert forall|i: int| 0 <= i < d.entries@.len() implies #[trigger] d.entries@[i].wf() by {
        assert(mbn_good_fn()(d.entries@[i]));
    }
    lemma_reframe(s, TAG);
}

/// Every entry of a run that splits satisfies the trivial property.
proof fn lemma_run_all_true(s: Seq<u8>)
    requires
        run_ok(s, mbn_len_fn()),
    ensures
        run_all(s, mbn_len_fn(), mbn_canon_fn()),
    decreases s.len(),
{
    if s.len() > 0 {
        let l = mbn_len_fn()(s);
        lemma_run_all_true(s.subrange(l, s.len() as int));
    }
}

/// A parsed MultilingualBouquetNameDescriptor is well formed: it encodes again, and parsing that encoding
/// yields it back.
pub proof fn lemma_multilingual_bouquet_name_reparse(s: Seq<u8>, d: MultilingualBouquetNameDescriptor)
    requires
        MultilingualBouquetNameDescriptor::bytes_ok(s),
        d.decodes(body_of(s)),
    ensures
        d.wf(),
        MultilingualBouquetNameDescriptor::bytes_ok(d.wire()),
        d.decodes(body_of(d.wire())),
{
    lemma_multilingual_bouquet_name_parse_encode(s, d);
    lemma_multilingual_bouquet_name_encode_parse(d);
}

pub open spec fn mbn_same_fn<'a>() -> spec_fn(BouquetNameEntry<'a>, BouquetNameEntry<'a>) -> bool {
    |a: BouquetNameEntry<'a>, b: BouquetNameEntry<'a>| a == b
}

/// Parsing, encoding and parsing again gives the same value: whatever parses
/// from the encoding of a parsed MultilingualBouquetNameDescriptor holds the same entries and equals it
/// otherwise.
pub proof fn lemma_multilingual_bouquet_name_round_trip(s: Seq<u8>, d: MultilingualBouquetNameDescriptor, d2: MultilingualBouquetNameDescriptor)
    requires
        MultilingualBouquetNameDescriptor::bytes_ok(s),
        d.decodes(body_of(s)),
        d2.decodes(body_of(d.wire())),
    ensures
        d2.entries@ == d.entries@,
        d2 == (MultilingualBouquetNameDescriptor { entries: d2.entries, ..d }),
{
    lemma_multilingual_bouquet_name_reparse(s, d);
    let w = body_of(d.wire());
    assert forall|a: BouquetNameEntry, b: BouquetNameEntry, t: Seq<u8>|
        #![trigger mbn_dec_fn()(a, t), mbn_dec_fn()(b, t)]
        mbn_dec_fn()(a, t) && mbn_dec_fn()(b, t) implies mbn_same_fn()(a, b) by {
        crate::wire::lemma_code_bytes_injective(a.language_code.0, b.language_code.0);
        DvbText::lemma_view_eq(a.bouquet_name, b.bouquet_name);
    }
    lemma_run_decodes_same(d2.entries@, d.entries@, w, mbn_len_fn(), mbn_dec_fn(), mbn_same_fn());
    assert forall|i: int| 0 <= i < d.entries@.len() implies d2.entries@[i] == d.entries@[i] by {
        assert(mbn_same_fn()(d2.entries@[i], d.entries@[i]));
    }
    assert(d2.entries@ =~= d.entries@);
}

} // verus!
