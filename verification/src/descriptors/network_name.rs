//! Network Name Descriptor — ETSI EN 300 468 §6.2.28 (tag 0x40).

use super::{
    body_of, descriptor_body, emit, emitted, framed, framed_prefix, header_error, header_ok,
    lemma_framed_parses, lemma_reframe, HEADER_LEN,
};
use crate::error::Error;
use crate::text::DvbText;
use crate::wire::{push_bytes, push_u8};
use vstd::prelude::*;

verus! {

/// Wire tag for the Network Name Descriptor.
pub const TAG: u8 = 0x40;

/// Network Name Descriptor (tag 0x40): the name of a DVB network.
#[derive(Debug, Clone, PartialEq, Eq)]
pub struct NetworkNameDescriptor<'a> {
    /// DVB Annex-A encoded network name.
    pub network_name: DvbText<'a>,
}

impl<'a> NetworkNameDescriptor<'a> {
    /// The body bytes: the name itself.
    pub open spec fn body_bytes(&self) -> Seq<u8> {
        self.network_name@
    }

    /// The complete wire encoding.
    pub open spec fn wire(&self) -> Seq<u8> {
        framed(TAG, self.body_bytes())
    }

    /// The value fits the wire format (its body length fits the length byte).
    pub open spec fn wf(&self) -> bool {
        self.body_bytes().len() <= 255
    }

    /// `self` is what parsing the body `b` yields.
    pub open spec fn decodes(&self, b: Seq<u8>) -> bool {
        self.network_name@ == b
    }

    /// Parses a network name descriptor from the front of `bytes`.
    pub fn parse(bytes: &'a [u8]) -> (r: Result<Self, Error>)
        ensures
            r is Ok <==> header_ok(bytes@, TAG),
            r matches Ok(d) ==> d.decodes(body_of(bytes@)),
            r matches Err(e) ==> header_error(e, bytes@, TAG),
    {
        let body = descriptor_body(
            bytes,
            TAG,
            "network name descriptor",
            "expected tag 0x40",
        )?;
        Ok(NetworkNameDescriptor { network_name: DvbText::new(body) })
    }

    /// Length of the wire encoding.
    pub fn serialized_len(&self) -> (n: usize)
        requires
            self.wire().len() <= usize::MAX,
        ensures
            n == self.wire().len(),
    {
        HEADER_LEN + self.network_name.len()
    }

    /// The `descriptor_length` byte: the name length, truncated to 8 bits.
    pub fn descriptor_length(&self) -> (n: u8)
        ensures
            n == (self.body_bytes().len() % 256) as u8,
    {
        (self.network_name.len() % 256) as u8
    }

    fn encode(&self) -> (v: Vec<u8>)
        requires
            self.wire().len() <= usize::MAX,
        ensures
            v@ == self.wire(),
    {
        let mut v = Vec::new();
        push_u8(&mut v, TAG);
        push_u8(&mut v, (self.network_name.len() % 256) as u8);
        push_bytes(&mut v, self.network_name.raw());
        assert(v@ =~= self.wire());
        v
    }

    /// Writes the descriptor to the front of `buf`.
    pub fn serialize_into(&self, buf: &mut [u8]) -> (r: Result<usize, Error>)
        requires
            self.wire().len() <= usize::MAX,
        ensures
            emitted(r, old(buf)@, final(buf)@, self.wire()),
    {
        let v = self.encode();
        emit(buf, &v)
    }
}

/// Encoding a network name descriptor and parsing the bytes gives it back.
pub proof fn lemma_network_name_encode_parse(d: NetworkNameDescriptor)
    requires
        d.wf(),
    ensures
        header_ok(d.wire(), TAG),
        d.decodes(body_of(d.wire())),
{
    lemma_framed_parses(TAG, d.body_bytes());
}

/// Parsing a network name descriptor and encoding the result gives back its bytes.
pub proof fn lemma_network_name_parse_encode(s: Seq<u8>, d: NetworkNameDescriptor)
    requires
        header_ok(s, TAG),
        d.decodes(body_of(s)),
    ensures
        d.wire() == framed_prefix(s),
{
    lemma_reframe(s, TAG);
}

/// A parsed NetworkNameDescriptor is well formed: it encodes again, and parsing that encoding
/// yields it back.
pub proof fn lemma_network_name_reparse(s: Seq<u8>, d: NetworkNameDescriptor)
    requires
        header_ok(s, TAG),
        d.decodes(body_of(s)),
    ensures
        d.wf(),
        header_ok(d.wire(), TAG),
        d.decodes(body_of(d.wire())),
{
    lemma_network_name_encode_parse(d);
}

/// Parsing, encoding and parsing again gives the same value: whatever parses
/// from the encoding of a parsed NetworkNameDescriptor equals it.
pub proof fn lemma_network_name_round_trip(s: Seq<u8>, d: NetworkNameDescriptor, d2: NetworkNameDescriptor)
    requires
        header_ok(s, TAG),
        d.decodes(body_of(s)),
        d2.decodes(body_of(d.wire())),
    ensures
        d2 == d,
{
    lemma_network_name_reparse(s, d);
    DvbText::lemma_view_eq(d2.network_name, d.network_name);
}

} // verus!
