//! Scrambling Descriptor — ETSI EN 300 468 §6.2.32 (tag 0x65).
//!
//! A single byte identifying the scrambling mode in use: 0x01 = DVB-CSA1,
//! 0x02 = DVB-CSA2, 0x03 = DVB-CSA3, 0x10 = DVB-CISSA v1, etc.

use super::{body_of, descriptor_body, emit, emitted, framed, framed_prefix, header_error, header_ok, lemma_framed_parses, lemma_reframe, HEADER_LEN};
use crate::error::{is_invalid, Error};
use vstd::prelude::*;

verus! {

/// Descriptor tag for scrambling_descriptor.
pub const TAG: u8 = 0x65;

/// Fixed payload length: a single scrambling_mode byte.
const BODY_LEN: u8 = 1;

/// Scrambling Descriptor (tag 0x65).
#[derive(Debug, Clone, PartialEq, Eq)]
pub struct ScramblingDescriptor {
    /// 8-bit scrambling_mode.
    pub scrambling_mode: u8,
}

impl ScramblingDescriptor {
    /// Parsing succeeds on exactly these bytes.
    pub open spec fn bytes_ok(s: Seq<u8>) -> bool {
        header_ok(s, TAG) && s[1] == 1
    }

    /// The error reported for bytes that do not parse.
    pub open spec fn bytes_error(e: Error, s: Seq<u8>) -> bool {
        if header_ok(s, TAG) {
            is_invalid(e, TAG)
        } else {
            header_error(e, s, TAG)
        }
    }

    /// `self` is what parsing the body `b` yields.
    pub open spec fn decodes(&self, b: Seq<u8>) -> bool {
        self.scrambling_mode == b[0]
    }

    /// The complete wire encoding.
    pub open spec fn wire(&self) -> Seq<u8> {
        framed(TAG, seq![self.scrambling_mode])
    }

    /// Parses a scrambling descriptor from the front of `bytes`.
    pub fn parse(bytes: &[u8]) -> (r: Result<Self, Error>)
        ensures
            r is Ok <==> Self::bytes_ok(bytes@),
            r matches Ok(d) ==> d.decodes(body_of(bytes@)),
            r matches Err(e) ==> Self::bytes_error(e, bytes@),
    {
        let body = descriptor_body(bytes, TAG, "ScramblingDescriptor", "unexpected tag for scrambling_descriptor")?;
        if body.len() != BODY_LEN as usize {
            return Err(Error::InvalidDescriptor { tag: TAG, reason: "scrambling_descriptor length must equal 1" });
        }
        Ok(ScramblingDescriptor { scrambling_mode: body[0] })
    }

    /// Length of the wire encoding.
    pub fn serialized_len(&self) -> (n: usize)
        ensures
            n == self.wire().len(),
    {
        HEADER_LEN + BODY_LEN as usize
    }

    /// Writes the descriptor to the front of `buf`.
    pub fn serialize_into(&self, buf: &mut [u8]) -> (r: Result<usize, Error>)
        ensures
            emitted(r, old(buf)@, final(buf)@, self.wire()),
    {
        let mut v: Vec<u8> = Vec::new();
        v.push(TAG);
        v.push(BODY_LEN);
        v.push(self.scrambling_mode);
        assert(v@ =~= self.wire());
        emit(buf, &v)
    }
}

/// Encoding a scrambling descriptor and parsing the bytes gives it back.
pub proof fn lemma_scrambling_encode_parse(d: ScramblingDescriptor)
    ensures
        ScramblingDescriptor::bytes_ok(d.wire()),
        d.decodes(body_of(d.wire())),
{
    lemma_framed_parses(TAG, seq![d.scrambling_mode]);
}

/// Parsing a scrambling descriptor and encoding the result gives back its bytes.
pub proof fn lemma_scrambling_parse_encode(s: Seq<u8>, d: ScramblingDescriptor)
    requires
        ScramblingDescriptor::bytes_ok(s),
        d.decodes(body_of(s)),
    ensures
        d.wire() == framed_prefix(s),
{
    lemma_reframe(s, TAG);
    assert(seq![d.scrambling_mode] =~= body_of(s));
}

} // verus!
