//! Private Data Indicator Descriptor — ISO/IEC 13818-1 §2.6.22 (tag 0x0F).
//!
//! Carries a 4-byte private data specifier that identifies the organization
//! or entity that defined the private data carried in the associated stream.

use super::{body_of, descriptor_body, emit, emitted, framed, framed_prefix, header_error, header_ok, lemma_framed_parses, lemma_reframe, HEADER_LEN};
use crate::error::{is_invalid, Error};
use vstd::prelude::*;

verus! {

/// Descriptor tag for private_data_indicator_descriptor.
pub const TAG: u8 = 0x0F;

/// Fixed payload length: the 4-byte specifier.
const BODY_LEN: u8 = 4;

/// Private Data Indicator Descriptor.
///
/// The `private_data_specifier` is a 4-byte value assigned by a standards body
/// or industry consortium to identify the organization that defined the private
/// data format used in the associated elementary stream.
#[derive(Debug, Clone, PartialEq, Eq)]
pub struct PrivateDataIndicatorDescriptor {
    /// 4-byte private data specifier identifier.
    pub private_data_specifier: [u8; 4],
}

/// The four bytes of the specifier.
pub open spec fn specifier_bytes(q: [u8; 4]) -> Seq<u8> {
    seq![q[0], q[1], q[2], q[3]]
}

impl PrivateDataIndicatorDescriptor {
    /// Parsing succeeds on exactly these bytes.
    pub open spec fn bytes_ok(s: Seq<u8>) -> bool {
        header_ok(s, TAG) && s[1] == 4
    }

    /// The error reported for bytes that do not parse.
    pub open spec fn bytes_error(e: Error, s: Seq<u8>) -> bool {
        if header_ok(s, TAG) {
            is_invalid(e, TAG)
        } else {
            header_error(e, s, TAG)
        }
    }

    /// `self` is what parsing the body `b` yields.
    pub open spec fn decodes(&self, b: Seq<u8>) -> bool {
        specifier_bytes(self.private_data_specifier) == b
    }

    /// The complete wire encoding.
    pub open spec fn wire(&self) -> Seq<u8> {
        framed(TAG, specifier_bytes(self.private_data_specifier))
    }

    /// Parses a private data indicator descriptor from the front of `bytes`.
    pub fn parse(bytes: &[u8]) -> (r: Result<Self, Error>)
        ensures
            r is Ok <==> Self::bytes_ok(bytes@),
            r matches Ok(d) ==> d.decodes(body_of(bytes@)),
            r matches Err(e) ==> Self::bytes_error(e, bytes@),
    {
        let body = descriptor_body(
            bytes,
            TAG,
            "PrivateDataIndicatorDescriptor",
            "unexpected tag for private_data_indicator_descriptor",
        )?;
        if body.len() != BODY_LEN as usize {
            return Err(
                Error::InvalidDescriptor { tag: TAG, reason: "private_data_indicator_descriptor length must equal 4" },
            );
        }
        let private_data_specifier = [body[0], body[1], body[2], body[3]];
        assert(specifier_bytes(private_data_specifier) =~= body@);
        Ok(PrivateDataIndicatorDescriptor { private_data_specifier })
    }

    /// Length of the wire encoding.
    pub fn serialized_len(&self) -> (n: usize)
        ensures
            n == self.wire().len(),
    {
        HEADER_LEN + BODY_LEN as usize
    }

    /// Writes the descriptor to the front of `buf`.
    pub fn serialize_into(&self, buf: &mut [u8]) -> (r: Result<usize, Error>)
        ensures
            emitted(r, old(buf)@, final(buf)@, self.wire()),
    {
        let q = self.private_data_specifier;
        let mut v: Vec<u8> = Vec::new();
        v.push(TAG);
        v.push(BODY_LEN);
        v.push(q[0]);
        v.push(q[1]);
        v.push(q[2]);
        v.push(q[3]);
        assert(v@ =~= self.wire());
        emit(buf, &v)
    }
}

/// Encoding a private data indicator descriptor and parsing the bytes gives it back.
pub proof fn lemma_private_data_indicator_encode_parse(d: PrivateDataIndicatorDescriptor)
    ensures
        PrivateDataIndicatorDescriptor::bytes_ok(d.wire()),
        d.decodes(body_of(d.wire())),
{
    lemma_framed_parses(TAG, specifier_bytes(d.private_data_specifier));
}

/// Parsing a private data indicator descriptor and encoding the result gives
/// back its bytes.
pub proof fn lemma_private_data_indicator_parse_encode(s: Seq<u8>, d: PrivateDataIndicatorDescriptor)
    requires
        PrivateDataIndicatorDescriptor::bytes_ok(s),
        d.decodes(body_of(s)),
    ensures
        d.wire() == framed_prefix(s),
{
    lemma_reframe(s, TAG);
}

} // verus!
