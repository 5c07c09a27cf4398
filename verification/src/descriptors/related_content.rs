//! Related Content Descriptor — ETSI TS 102 323 §10.4.1 (tag 0x74).
//!
//! Carried in a PMT ES_info loop to flag that the elementary stream delivers
//! a Related Content Table (RCT) sub_table. The descriptor body is empty — it
//! is a pure marker: `descriptor_length` is set to the number of bytes that
//! follow it, i.e. zero. Payload bytes after a non-zero length are ignored on
//! parse (forward compatibility).

use super::{body_of, emit, emitted, framed, framed_prefix, header_error, header_ok, lemma_framed_parses, HEADER_LEN};
use crate::error::Error;
use vstd::prelude::*;

verus! {

/// Descriptor tag for related_content_descriptor.
pub const TAG: u8 = 0x74;

/// Related Content Descriptor.
///
/// A zero-length marker — it carries no payload fields.
#[derive(Debug, Clone, PartialEq, Eq, Default)]
pub struct RelatedContentDescriptor;

impl RelatedContentDescriptor {
    /// Parsing succeeds on exactly these bytes: any complete descriptor with this tag.
    pub open spec fn bytes_ok(s: Seq<u8>) -> bool {
        header_ok(s, TAG)
    }

    /// The complete wire encoding: an empty body.
    pub open spec fn wire(&self) -> Seq<u8> {
        framed(TAG, Seq::empty())
    }

    /// Parses a related content descriptor from the front of `bytes`.
    pub fn parse(bytes: &[u8]) -> (r: Result<Self, Error>)
        ensures
            r is Ok <==> Self::bytes_ok(bytes@),
            r matches Err(e) ==> header_error(e, bytes@, TAG),
    {
        if bytes.len() < HEADER_LEN {
            return Err(
                Error::BufferTooShort { need: HEADER_LEN, have: bytes.len(), what: "RelatedContentDescriptor header" },
            );
        }
        if bytes[0] != TAG {
            return Err(
                Error::InvalidDescriptor { tag: bytes[0], reason: "unexpected tag for related_content_descriptor" },
            );
        }
        let length = bytes[1] as usize;
        let end = HEADER_LEN + length;
        if bytes.len() < end {
            return Err(Error::BufferTooShort { need: end, have: bytes.len(), what: "RelatedContentDescriptor body" });
        }
        Ok(RelatedContentDescriptor)
    }

    /// Length of the wire encoding.
    pub fn serialized_len(&self) -> (n: usize)
        ensures
            n == self.wire().len(),
    {
        HEADER_LEN
    }

    /// The `descriptor_length` byte.
    pub fn descriptor_length(&self) -> (n: u8)
        ensures
            n == 0,
    {
        0
    }

    /// Writes the descriptor to the front of `buf`.
    pub fn serialize_into(&self, buf: &mut [u8]) -> (r: Result<usize, Error>)
        ensures
            emitted(r, old(buf)@, final(buf)@, self.wire()),
    {
        let mut v: Vec<u8> = Vec::new();
        v.push(TAG);
        v.push(0);
        assert(v@ =~= self.wire());
        emit(buf, &v)
    }
}

/// Encoding a related content descriptor gives bytes that parse, with an empty body.
pub proof fn lemma_related_content_encode_parse(d: RelatedContentDescriptor)
    ensures
        RelatedContentDescriptor::bytes_ok(d.wire()),
        body_of(d.wire()).len() == 0,
{
    lemma_framed_parses(TAG, Seq::empty());
}

/// A related content descriptor with an empty body is exactly what encoding writes.
pub proof fn lemma_related_content_parse_encode(s: Seq<u8>, d: RelatedContentDescriptor)
    requires
        RelatedContentDescriptor::bytes_ok(s),
        s[1] == 0,
    ensures
        d.wire() == framed_prefix(s),
{
    assert(d.wire() =~= framed_prefix(s));
}

} // verus!
