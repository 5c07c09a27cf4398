//! Parental Rating Descriptor — ETSI EN 300 468 §6.2.30 (tag 0x55).
//!
//! Carried inside EIT: per-country minimum-age rating for the event.

use super::{
    body_of, descriptor_body, emit, emitted, framed, framed_prefix, header_error, header_ok,
    lemma_framed_parses, lemma_reframe, HEADER_LEN,
};
use crate::error::{is_invalid, Error};
use crate::text::LangCode;
use crate::wire::{
    code_bytes, concat_map, lemma_concat_map_blocks, lemma_concat_map_fixed, lemma_concat_map_push,
    push_code, push_u8, read_code,
};
use vstd::prelude::*;

verus! {

/// Descriptor tag for parental_rating_descriptor.
pub const TAG: u8 = 0x55;

/// Size of one (country, rating) entry.
const ENTRY_LEN: usize = 4;

/// One (country, rating) pair.
#[derive(Debug, Clone, Copy, PartialEq, Eq)]
pub struct RatingEntry {
    /// ISO 3166 country code.
    pub country_code: LangCode,
    /// rating(8): 0x01..=0x0F means minimum age rating + 3; others are
    /// undefined or broadcaster-defined.
    pub rating: u8,
}

impl RatingEntry {
    /// The minimum age the rating byte stands for, if it encodes one.
    pub open spec fn spec_minimum_age(&self) -> Option<u8> {
        if 0x01 <= self.rating <= 0x0F {
            Some((self.rating + 3) as u8)
        } else {
            None
        }
    }

    /// The minimum age (rating + 3) for ratings 0x01..=0x0F, `None` otherwise.
    pub fn minimum_age(&self) -> (r: Option<u8>)
        ensures
            r == self.spec_minimum_age(),
    {
        if 0x01 <= self.rating && self.rating <= 0x0F {
            Some(self.rating + 3)
        } else {
            None
        }
    }

    /// `self` is what parsing the four entry bytes `t` yields.
    pub open spec fn decodes(&self, t: Seq<u8>) -> bool {
        code_bytes(self.country_code.0) == t.subrange(0, 3) && self.rating == t[3]
    }
}

/// The four bytes of an entry.
pub open spec fn entry_wire() -> spec_fn(RatingEntry) -> Seq<u8> {
    |e: RatingEntry| code_bytes(e.country_code.0) + seq![e.rating]
}

/// Parental Rating Descriptor.
#[derive(Debug, Clone, PartialEq, Eq)]
pub struct ParentalRatingDescriptor {
    /// The rating entries in wire order.
    pub entries: Vec<RatingEntry>,
}

impl ParentalRatingDescriptor {
    /// Parsing succeeds on exactly these bytes.
    pub open spec fn bytes_ok(s: Seq<u8>) -> bool {
        header_ok(s, TAG) && body_of(s).len() % 4 == 0
    }

    /// The error reported for bytes that do not parse.
    pub open spec fn bytes_error(e: Error, s: Seq<u8>) -> bool {
        if header_ok(s, TAG) {
            is_invalid(e, TAG)
        } else {
            header_error(e, s, TAG)
        }
    }

    /// `self` is what parsing the body `b` yields: one entry per four bytes.
    pub open spec fn decodes(&self, b: Seq<u8>) -> bool {
        &&& self.entries@.len() * 4 == b.len()
        &&& forall|i: int|
            0 <= i < self.entries@.len() ==> #[trigger] self.entries@[i].decodes(b.subrange(4 * i, 4 * i + 4))
    }

    /// The body bytes.
    pub open spec fn body_bytes(&self) -> Seq<u8> {
        concat_map(self.entries@, entry_wire())
    }

    /// The complete wire encoding.
    pub open spec fn wire(&self) -> Seq<u8> {
        framed(TAG, self.body_bytes())
    }

    /// The body fits its length byte.
    pub open spec fn wf(&self) -> bool {
        self.entries@.len() * 4 <= 255
    }

    proof fn lemma_body_len(&self)
        ensures
            self.body_bytes().len() == 4 * self.entries@.len(),
            forall|i: int|
                0 <= i < self.entries@.len() ==> self.body_bytes().subrange(4 * i, 4 * i + 4)
                    == #[trigger] entry_wire()(self.entries@[i]),
    {
        let es = self.entries@;
        assert forall|i: int| 0 <= i < es.len() implies #[trigger] entry_wire()(es[i]).len() == 4 by {}
        lemma_concat_map_fixed(es, entry_wire(), 4);
    }

    /// Parses a parental rating descriptor from the front of `bytes`.
    pub fn parse(bytes: &[u8]) -> (r: Result<Self, Error>)
        ensures
            r is Ok <==> Self::bytes_ok(bytes@),
            r matches Ok(d) ==> d.decodes(body_of(bytes@)),
            r matches Err(e) ==> Self::bytes_error(e, bytes@),
    {
        let body = descriptor_body(
            bytes,
            TAG,
            "ParentalRatingDescriptor",
            "unexpected tag for parental_rating_descriptor",
        )?;
        if body.len() % ENTRY_LEN != 0 {
            return Err(
                Error::InvalidDescriptor { tag: TAG, reason: "descriptor_body_length is not a multiple of 4" },
            );
        }
        let n = body.len() / ENTRY_LEN;
        let mut entries: Vec<RatingEntry> = Vec::new();
        let mut i: usize = 0;
        while i < n
            invariant
                n * 4 == body.len(),
                i <= n,
                entries@.len() == i,
                forall|j: int| 0 <= j < i ==> #[trigger] entries@[j].decodes(body@.subrange(4 * j, 4 * j + 4)),
            decreases n - i,
        {
            assert(i * 4 + 4 <= n * 4) by (nonlinear_arith)
                requires
                    i < n,
            ;
            let p: usize = i * 4;
            let e = RatingEntry { country_code: LangCode(read_code(body, p)), rating: body[p + 3] };
            assert(e.decodes(body@.subrange(4 * i, 4 * i + 4))) by {
                assert(body@.subrange(p as int, p + 3) =~= body@.subrange(4 * i, 4 * i + 4).subrange(0, 3));
            }
            entries.push(e);
            i = i + 1;
        }
        Ok(ParentalRatingDescriptor { entries })
    }

    /// Length of the wire encoding.
    pub fn serialized_len(&self) -> (n: usize)
        requires
            self.wire().len() <= usize::MAX,
        ensures
            n == self.wire().len(),
    {
        proof {
            self.lemma_body_len();
        }
        HEADER_LEN + self.entries.len() * ENTRY_LEN
    }

    /// The `descriptor_length` byte: the body length, truncated to 8 bits.
    pub fn descriptor_length(&self) -> (n: u8)
        requires
            self.wire().len() <= usize::MAX,
        ensures
            n == (self.body_bytes().len() % 256) as u8,
    {
        proof {
            self.lemma_body_len();
        }
        ((self.entries.len() * ENTRY_LEN) % 256) as u8
    }

    fn encode(&self) -> (v: Vec<u8>)
        requires
            self.wire().len() <= usize::MAX,
        ensures
            v@ == self.wire(),
    {
        let mut v = Vec::new();
        push_u8(&mut v, TAG);
        push_u8(&mut v, self.descriptor_length());
        let ghost start = v@;
        let mut i: usize = 0;
        while i < self.entries.len()
            invariant
                i <= self.entries@.len(),
                v@ == start + concat_map(self.entries@.subrange(0, i as int), entry_wire()),
            decreases self.entries@.len() - i,
        {
            proof {
                lemma_concat_map_push(self.entries@.subrange(0, i as int), self.entries@[i as int], entry_wire());
                assert(self.entries@.subrange(0, i as int).push(self.entries@[i as int]) =~= self.entries@.subrange(0, i + 1));
            }
            push_code(&mut v, self.entries[i].country_code.0);
            push_u8(&mut v, self.entries[i].rating);
            i = i + 1;
            assert(v@ =~= start + concat_map(self.entries@.subrange(0, i as int), entry_wire()));
        }
        assert(self.entries@.subrange(0, i as int) =~= self.entries@);
        assert(v@ =~= self.wire());
        v
    }

    /// Writes the descriptor to the front of `buf`.
    pub fn serialize_into(&self, buf: &mut [u8]) -> (r: Result<usize, Error>)
        requires
            self.wire().len() <= usize::MAX,
        ensures
            emitted(r, old(buf)@, final(buf)@, self.wire()),
    {
        let v = self.encode();
        emit(buf, &v)
    }
}

/// Encoding a well-formed parental rating descriptor and parsing the bytes gives it back.
pub proof fn lemma_parental_rating_encode_parse(d: ParentalRatingDescriptor)
    requires
        d.wf(),
    ensures
        ParentalRatingDescriptor::bytes_ok(d.wire()),
        d.decodes(body_of(d.wire())),
{
    d.lemma_body_len();
    lemma_framed_parses(TAG, d.body_bytes());
    let b = d.body_bytes();
    assert forall|i: int| 0 <= i < d.entries@.len() implies #[trigger] d.entries@[i].decodes(b.subrange(4 * i, 4 * i + 4)) by {
        let e = d.entries@[i];
        assert(b.subrange(4 * i, 4 * i + 4) == entry_wire()(e));
        assert(b.subrange(4 * i, 4 * i + 4).subrange(0, 3) =~= code_bytes(e.country_code.0));
    }
}

/// Parsing an parental rating descriptor and encoding the result gives back its bytes.
pub proof fn lemma_parental_rating_parse_encode(s: Seq<u8>, d: ParentalRatingDescriptor)
    requires
        ParentalRatingDescriptor::bytes_ok(s),
        d.decodes(body_of(s)),
    ensures
        d.wire() == framed_prefix(s),
        d.wf(),
{
    let b = body_of(s);
    let es = d.entries@;
    assert forall|i: int| 0 <= i < es.len() implies #[trigger] entry_wire()(es[i]) == b.subrange(4 * i, 4 * i + 4) by {
        let t = b.subrange(4 * i, 4 * i + 4);
        assert(es[i].decodes(t));
        assert(entry_wire()(es[i]) =~= t);
    }
    lemma_concat_map_blocks(es, entry_wire(), 4, b);
    lemma_reframe(s, TAG);
}

/// A parsed ParentalRatingDescriptor is well formed: it encodes again, and parsing that encoding
/// yields it back.
pub proof fn lemma_parental_rating_reparse(s: Seq<u8>, d: ParentalRatingDescriptor)
    requires
        ParentalRatingDescriptor::bytes_ok(s),
        d.decodes(body_of(s)),
    ensures
        d.wf(),
        ParentalRatingDescriptor::bytes_ok(d.wire()),
        d.decodes(body_of(d.wire())),
{
    lemma_parental_rating_encode_parse(d);
}

/// Parsing, encoding and parsing again gives the same value: whatever parses
/// from the encoding of a parsed ParentalRatingDescriptor holds the same entries and equals it
/// otherwise.
pub proof fn lemma_parental_rating_round_trip(s: Seq<u8>, d: ParentalRatingDescriptor, d2: ParentalRatingDescriptor)
    requires
        ParentalRatingDescriptor::bytes_ok(s),
        d.decodes(body_of(s)),
        d2.decodes(body_of(d.wire())),
    ensures
        d2.entries@ == d.entries@,
        d2 == (ParentalRatingDescriptor { entries: d2.entries, ..d }),
{
    lemma_parental_rating_reparse(s, d);
    let w = body_of(d.wire());
    assert forall|i: int| 0 <= i < d.entries@.len() implies d2.entries@[i] == d.entries@[i] by {
        assert(d2.entries@[i].decodes(w.subrange(4 * i, 4 * i + 4)));
        assert(d.entries@[i].decodes(w.subrange(4 * i, 4 * i + 4)));
        crate::wire::lemma_code_bytes_injective(d2.entries@[i].country_code.0, d.entries@[i].country_code.0);
    }
    assert(d2.entries@ =~= d.entries@);
}

/// The EN 300 468 parental rating codes: a rating byte 0x01-0x0F stands for a
/// minimum age of the rating plus 3 years (0x01 is 4 years, 0x0F is 18); 0x00 and
/// 0x10-0xFF stand for no minimum age.
pub proof fn lemma_minimum_age_codes(e: RatingEntry)
    ensures
        1 <= e.rating <= 15 ==> e.spec_minimum_age() == Some((e.rating + 3) as u8),
        e.rating == 0 || e.rating >= 16 ==> e.spec_minimum_age() is None,
        e.rating == 1 ==> e.spec_minimum_age() == Some(4u8),
        e.rating == 15 ==> e.spec_minimum_age() == Some(18u8),
{
}

} // verus!
