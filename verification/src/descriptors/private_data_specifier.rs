//! Private Data Specifier Descriptor — ETSI EN 300 468 §6.2.31 (tag 0x5F).
//!
//! A single 32-bit `private_data_specifier` value (registered in
//! TR 101 162) that scopes the interpretation of any subsequent private
//! (user-defined) descriptors in the same loop.

use super::{body_of, descriptor_body, emit, emitted, framed, framed_prefix, header_error, header_ok, lemma_framed_parses, lemma_reframe, HEADER_LEN};
use crate::error::{is_invalid, Error};
use crate::wire::{be32, lemma_be32_of_bytes, lemma_bytes_of_be32, push_u32, push_u8, read_u32, u32_bytes};
use vstd::prelude::*;

verus! {

/// Descriptor tag for private_data_specifier_descriptor.
pub const TAG: u8 = 0x5F;

/// Fixed payload length: a single 32-bit specifier.
const BODY_LEN: u8 = 4;

/// Private Data Specifier Descriptor (tag 0x5F).
#[derive(Debug, Clone, PartialEq, Eq)]
pub struct PrivateDataSpecifierDescriptor {
    /// 32-bit registered private_data_specifier.
    pub private_data_specifier: u32,
}

impl PrivateDataSpecifierDescriptor {
    /// Parsing succeeds on exactly these bytes.
    pub open spec fn bytes_ok(s: Seq<u8>) -> bool {
        header_ok(s, TAG) && s[1] == 4
    }

    /// The error reported for bytes that do not parse.
    pub open spec fn bytes_error(e: Error, s: Seq<u8>) -> bool {
        if header_ok(s, TAG) {
            is_invalid(e, TAG)
        } else {
            header_error(e, s, TAG)
        }
    }

    /// `self` is what parsing the body `b` yields.
    pub open spec fn decodes(&self, b: Seq<u8>) -> bool {
        self.private_data_specifier == be32(b, 0)
    }

    /// The complete wire encoding.
    pub open spec fn wire(&self) -> Seq<u8> {
        framed(TAG, u32_bytes(self.private_data_specifier))
    }

    /// Parses a private data specifier descriptor from the front of `bytes`.
    pub fn parse(bytes: &[u8]) -> (r: Result<Self, Error>)
        ensures
            r is Ok <==> Self::bytes_ok(bytes@),
            r matches Ok(d) ==> d.decodes(body_of(bytes@)),
            r matches Err(e) ==> Self::bytes_error(e, bytes@),
    {
        let body = descriptor_body(
            bytes,
            TAG,
            "PrivateDataSpecifierDescriptor",
            "unexpected tag for private_data_specifier_descriptor",
        )?;
        if body.len() != BODY_LEN as usize {
            return Err(
                Error::InvalidDescriptor { tag: TAG, reason: "private_data_specifier_descriptor length must equal 4" },
            );
        }
        Ok(PrivateDataSpecifierDescriptor { private_data_specifier: read_u32(body, 0) })
    }

    /// Length of the wire encoding.
    pub fn serialized_len(&self) -> (n: usize)
        ensures
            n == self.wire().len(),
    {
        HEADER_LEN + BODY_LEN as usize
    }

    /// Writes the descriptor to the front of `buf`.
    pub fn serialize_into(&self, buf: &mut [u8]) -> (r: Result<usize, Error>)
        ensures
            emitted(r, old(buf)@, final(buf)@, self.wire()),
    {
        let mut v: Vec<u8> = Vec::new();
        push_u8(&mut v, TAG);
        push_u8(&mut v, BODY_LEN);
        push_u32(&mut v, self.private_data_specifier);
        assert(v@ =~= self.wire());
        emit(buf, &v)
    }
}

/// Encoding a private data specifier descriptor and parsing the bytes gives it back.
pub proof fn lemma_private_data_specifier_encode_parse(d: PrivateDataSpecifierDescriptor)
    ensures
        PrivateDataSpecifierDescriptor::bytes_ok(d.wire()),
        d.decodes(body_of(d.wire())),
{
    lemma_framed_parses(TAG, u32_bytes(d.private_data_specifier));
    lemma_be32_of_bytes(d.private_data_specifier);
}

/// Parsing a private data specifier descriptor and encoding the result gives
/// back its bytes.
pub proof fn lemma_private_data_specifier_parse_encode(s: Seq<u8>, d: PrivateDataSpecifierDescriptor)
    requires
        PrivateDataSpecifierDescriptor::bytes_ok(s),
        d.decodes(body_of(s)),
    ensures
        d.wire() == framed_prefix(s),
{
    lemma_reframe(s, TAG);
    lemma_bytes_of_be32(body_of(s), 0);
    assert(u32_bytes(d.private_data_specifier) =~= body_of(s));
}

} // verus!
