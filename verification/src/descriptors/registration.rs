//! Registration Descriptor — ISO/IEC 13818-1 §2.6.13 (tag 0x05).
//!
//! Identifies the registration of a stream or program via a 4-byte
//! `format_identifier`. Optionally followed by additional identification
//! information.

use super::{body_of, descriptor_body, emit, emitted, framed, framed_prefix, header_error, header_ok, lemma_framed_parses, lemma_reframe, HEADER_LEN};
use crate::error::{is_invalid, Error};
use crate::wire::{push_bytes, push_u8};
use vstd::prelude::*;

verus! {

/// Descriptor tag for registration_descriptor.
pub const TAG: u8 = 0x05;

/// Length of the format identifier.
const FORMAT_IDENTIFIER_LEN: usize = 4;

/// Registration Descriptor.
///
/// The `format_identifier` is a 4-byte code registered with a standards body
/// (e.g. SMPTE, ATSC) that identifies the coding format of the associated
/// stream. Any bytes beyond the 4-byte identifier are treated as opaque
/// additional identification info.
#[derive(Debug, Clone, PartialEq, Eq)]
pub struct RegistrationDescriptor<'a> {
    /// 4-byte format identifier (e.g. b"AC-3", b"HDMV", b"dtsx").
    pub format_identifier: [u8; 4],
    /// Optional additional identification bytes following the format identifier.
    pub additional_identification_info: &'a [u8],
}

/// The four bytes of a format identifier.
pub open spec fn identifier_bytes(q: [u8; 4]) -> Seq<u8> {
    seq![q[0], q[1], q[2], q[3]]
}

impl<'a> RegistrationDescriptor<'a> {
    /// Parsing succeeds on exactly these bytes.
    pub open spec fn bytes_ok(s: Seq<u8>) -> bool {
        header_ok(s, TAG) && s[1] >= 4
    }

    /// The error reported for bytes that do not parse.
    pub open spec fn bytes_error(e: Error, s: Seq<u8>) -> bool {
        if header_ok(s, TAG) {
            is_invalid(e, TAG)
        } else {
            header_error(e, s, TAG)
        }
    }

    /// `self` is what parsing the body `b` yields.
    pub open spec fn decodes(&self, b: Seq<u8>) -> bool {
        &&& identifier_bytes(self.format_identifier) == b.subrange(0, 4)
        &&& self.additional_identification_info@ == b.subrange(4, b.len() as int)
    }

    /// The body bytes.
    pub open spec fn body_bytes(&self) -> Seq<u8> {
        identifier_bytes(self.format_identifier) + self.additional_identification_info@
    }

    /// The complete wire encoding; the length byte holds the body length modulo 256.
    pub open spec fn wire(&self) -> Seq<u8> {
        framed(TAG, self.body_bytes())
    }

    /// The body fits its length byte.
    pub open spec fn wf(&self) -> bool {
        4 + self.additional_identification_info@.len() <= 255
    }

    /// Parses a registration descriptor from the front of `bytes`.
    pub fn parse(bytes: &'a [u8]) -> (r: Result<Self, Error>)
        ensures
            r is Ok <==> Self::bytes_ok(bytes@),
            r matches Ok(d) ==> d.decodes(body_of(bytes@)),
            r matches Err(e) ==> Self::bytes_error(e, bytes@),
    {
        let body = descriptor_body(bytes, TAG, "RegistrationDescriptor", "unexpected tag for registration_descriptor")?;
        if body.len() < FORMAT_IDENTIFIER_LEN {
            return Err(
                Error::InvalidDescriptor {
                    tag: TAG,
                    reason: "registration_descriptor length too short for format_identifier",
                },
            );
        }
        let format_identifier = [body[0], body[1], body[2], body[3]];
        assert(identifier_bytes(format_identifier) =~= body@.subrange(0, 4));
        let additional_identification_info = &body[FORMAT_IDENTIFIER_LEN..body.len()];
        Ok(RegistrationDescriptor { format_identifier, additional_identification_info })
    }

    /// Length of the wire encoding.
    pub fn serialized_len(&self) -> (n: usize)
        requires
            self.wire().len() <= usize::MAX,
        ensures
            n == self.wire().len(),
    {
        HEADER_LEN + FORMAT_IDENTIFIER_LEN + self.additional_identification_info.len()
    }

    /// Writes the descriptor to the front of `buf`. The length byte is the
    /// body length truncated to 8 bits.
    pub fn serialize_into(&self, buf: &mut [u8]) -> (r: Result<usize, Error>)
        requires
            self.wire().len() <= usize::MAX,
        ensures
            emitted(r, old(buf)@, final(buf)@, self.wire()),
    {
        let len = self.serialized_len();
        let q = self.format_identifier;
        let mut v: Vec<u8> = Vec::new();
        push_u8(&mut v, TAG);
        push_u8(&mut v, ((len - HEADER_LEN) % 256) as u8);
        push_u8(&mut v, q[0]);
        push_u8(&mut v, q[1]);
        push_u8(&mut v, q[2]);
        push_u8(&mut v, q[3]);
        push_bytes(&mut v, self.additional_identification_info);
        assert(v@ =~= self.wire());
        emit(buf, &v)
    }
}

/// Encoding a well-formed registration descriptor and parsing the bytes gives it back.
pub proof fn lemma_registration_encode_parse(d: RegistrationDescriptor)
    requires
        d.wf(),
    ensures
        RegistrationDescriptor::bytes_ok(d.wire()),
        d.decodes(body_of(d.wire())),
{
    let b = d.body_bytes();
    lemma_framed_parses(TAG, b);
    assert(b.subrange(0, 4) =~= identifier_bytes(d.format_identifier));
    assert(b.subrange(4, b.len() as int) =~= d.additional_identification_info@);
}

/// Parsing a registration descriptor and encoding the result gives back its bytes.
pub proof fn lemma_registration_parse_encode(s: Seq<u8>, d: RegistrationDescriptor)
    requires
        RegistrationDescriptor::bytes_ok(s),
        d.decodes(body_of(s)),
    ensures
        d.wire() == framed_prefix(s),
        d.wf(),
{
    lemma_reframe(s, TAG);
    assert(d.body_bytes() =~= body_of(s));
}

/// A parsed RegistrationDescriptor is well formed: it encodes again, and parsing that encoding
/// yields it back.
pub proof fn lemma_registration_reparse(s: Seq<u8>, d: RegistrationDescriptor)
    requires
        RegistrationDescriptor::bytes_ok(s),
        d.decodes(body_of(s)),
    ensures
        d.wf(),
        RegistrationDescriptor::bytes_ok(d.wire()),
        d.decodes(body_of(d.wire())),
{
    lemma_registration_encode_parse(d);
}

/// Parsing, encoding and parsing again gives the same value: whatever parses
/// from the encoding of a parsed RegistrationDescriptor equals it.
pub proof fn lemma_registration_round_trip(s: Seq<u8>, d: RegistrationDescriptor, d2: RegistrationDescriptor)
    requires
        RegistrationDescriptor::bytes_ok(s),
        d.decodes(body_of(s)),
        d2.decodes(body_of(d.wire())),
    ensures
        d2 == d,
{
    lemma_registration_reparse(s, d);
    assert(d2.additional_identification_info =~= d.additional_identification_info);
    let (a, b) = (d2.format_identifier, d.format_identifier);
    assert(identifier_bytes(a)[0] == identifier_bytes(b)[0] && identifier_bytes(a)[1] == identifier_bytes(b)[1]
        && identifier_bytes(a)[2] == identifier_bytes(b)[2] && identifier_bytes(a)[3] == identifier_bytes(b)[3]);
    assert(a =~= b);
}

} // verus!
