//! NVOD Reference Descriptor — ETSI EN 300 468 §6.2.28 (tag 0x4B).
//!
//! Carried in the SDT for an NVOD reference service. The body is a loop of
//! (transport_stream_id, original_network_id, service_id) triples, each
//! identifying one of the time-shifted NVOD services.

use super::{body_of, emitted_capped, framed, framed_prefix, lemma_framed_parses, lemma_reframe, HEADER_LEN};
use crate::error::{is_invalid, is_too_short, Error};
use crate::wire::{
    be16, concat_map, lemma_be16_of_bytes, lemma_bytes_of_be16, lemma_concat_map_blocks, lemma_concat_map_fixed,
    lemma_concat_map_push, push_u16, push_u8, read_u16, u16_bytes, copy_to_front,
};
use vstd::prelude::*;

verus! {

/// Descriptor tag for NVOD_reference_descriptor.
pub const TAG: u8 = 0x4B;

/// Size of one reference entry.
const ENTRY_LEN: usize = 6;

/// Largest body the 8-bit descriptor_length can declare.
const MAX_BODY_LEN: usize = 255;

/// One time-shifted service reference.
#[derive(Debug, Clone, Copy, PartialEq, Eq)]
pub struct NvodReferenceEntry {
    /// transport_stream_id(16).
    pub transport_stream_id: u16,
    /// original_network_id(16).
    pub original_network_id: u16,
    /// service_id(16).
    pub service_id: u16,
}

impl NvodReferenceEntry {
    /// `self` is what parsing the six entry bytes `t` yields.
    pub open spec fn decodes(&self, t: Seq<u8>) -> bool {
        &&& self.transport_stream_id == be16(t, 0)
        &&& self.original_network_id == be16(t, 2)
        &&& self.service_id == be16(t, 4)
    }
}

/// The six bytes of an entry.
pub open spec fn entry_wire() -> spec_fn(NvodReferenceEntry) -> Seq<u8> {
    |e: NvodReferenceEntry| u16_bytes(e.transport_stream_id) + u16_bytes(e.original_network_id) + u16_bytes(
        e.service_id,
    )
}

/// NVOD Reference Descriptor.
#[derive(Debug, Clone, PartialEq, Eq)]
pub struct NvodReferenceDescriptor {
    /// The referenced services in wire order.
    pub entries: Vec<NvodReferenceEntry>,
}

impl NvodReferenceDescriptor {
    /// Parsing succeeds on exactly these bytes.
    pub open spec fn bytes_ok(s: Seq<u8>) -> bool {
        s.len() >= 2 && s[0] == TAG && s[1] % 6 == 0 && s.len() >= 2 + s[1]
    }

    /// The error reported for bytes that do not parse (the length byte is
    /// checked for whole entries before the body is looked for).
    pub open spec fn bytes_error(e: Error, s: Seq<u8>) -> bool {
        if s.len() < 2 {
            is_too_short(e, 2, s.len() as int)
        } else if s[0] != TAG {
            is_invalid(e, s[0])
        } else if s[1] % 6 != 0 {
            is_invalid(e, TAG)
        } else {
            is_too_short(e, 2 + s[1], s.len() as int)
        }
    }

    /// `self` is what parsing the body `b` yields: one entry per six bytes.
    pub open spec fn decodes(&self, b: Seq<u8>) -> bool {
        &&& self.entries@.len() * 6 == b.len()
        &&& forall|i: int|
            0 <= i < self.entries@.len() ==> #[trigger] self.entries@[i].decodes(b.subrange(6 * i, 6 * i + 6))
    }

    /// The body bytes.
    pub open spec fn body_bytes(&self) -> Seq<u8> {
        concat_map(self.entries@, entry_wire())
    }

    /// The complete wire encoding.
    pub open spec fn wire(&self) -> Seq<u8> {
        framed(TAG, self.body_bytes())
    }

    /// The body fits its length byte.
    pub open spec fn wf(&self) -> bool {
        self.entries@.len() * 6 <= 255
    }

    proof fn lemma_body_len(&self)
        ensures
            self.body_bytes().len() == 6 * self.entries@.len(),
            forall|i: int|
                0 <= i < self.entries@.len() ==> self.body_bytes().subrange(6 * i, 6 * i + 6)
                    == #[trigger] entry_wire()(self.entries@[i]),
    {
        let es = self.entries@;
        assert forall|i: int| 0 <= i < es.len() implies #[trigger] entry_wire()(es[i]).len() == 6 by {}
        lemma_concat_map_fixed(es, entry_wire(), 6);
    }

    /// Parses an NVOD reference descriptor from the front of `bytes`.
    pub fn parse(bytes: &[u8]) -> (r: Result<Self, Error>)
        ensures
            r is Ok <==> Self::bytes_ok(bytes@),
            r matches Ok(d) ==> d.decodes(body_of(bytes@)),
            r matches Err(e) ==> Self::bytes_error(e, bytes@),
    {
        if bytes.len() < HEADER_LEN {
            return Err(
                Error::BufferTooShort { need: HEADER_LEN, have: bytes.len(), what: "NvodReferenceDescriptor header" },
            );
        }
        if bytes[0] != TAG {
            return Err(
                Error::InvalidDescriptor { tag: bytes[0], reason: "unexpected tag for NVOD_reference_descriptor" },
            );
        }
        let length = bytes[1] as usize;
        if length % ENTRY_LEN != 0 {
            return Err(Error::InvalidDescriptor { tag: TAG, reason: "descriptor_length must be a multiple of 6" });
        }
        let end = HEADER_LEN + length;
        if bytes.len() < end {
            return Err(Error::BufferTooShort { need: end, have: bytes.len(), what: "NvodReferenceDescriptor body" });
        }
        let body = &bytes[HEADER_LEN..end];
        let n = length / ENTRY_LEN;
        let mut entries: Vec<NvodReferenceEntry> = Vec::new();
        let mut i: usize = 0;
        while i < n
            invariant
                n * 6 == body.len(),
                i <= n,
                entries@.len() == i,
                forall|j: int| 0 <= j < i ==> #[trigger] entries@[j].decodes(body@.subrange(6 * j, 6 * j + 6)),
            decreases n - i,
        {
            assert(i * 6 + 6 <= n * 6) by (nonlinear_arith)
                requires
                    i < n,
            ;
            let p: usize = i * 6;
            let e = NvodReferenceEntry {
                transport_stream_id: read_u16(body, p),
                original_network_id: read_u16(body, p + 2),
                service_id: read_u16(body, p + 4),
            };
            assert(e.decodes(body@.subrange(6 * i, 6 * i + 6)));
            entries.push(e);
            i = i + 1;
        }
        Ok(NvodReferenceDescriptor { entries })
    }

    /// Length of the wire encoding.
    pub fn serialized_len(&self) -> (n: usize)
        requires
            self.wire().len() <= usize::MAX,
        ensures
            n == self.wire().len(),
    {
        proof {
            self.lemma_body_len();
        }
        HEADER_LEN + ENTRY_LEN * self.entries.len()
    }

    /// The `descriptor_length` byte: the body length, truncated to 8 bits.
    pub fn descriptor_length(&self) -> (n: u8)
        requires
            self.wire().len() <= usize::MAX,
        ensures
            n == (self.body_bytes().len() % 256) as u8,
    {
        proof {
            self.lemma_body_len();
        }
        ((ENTRY_LEN * self.entries.len()) % 256) as u8
    }

    fn encode(&self) -> (v: Vec<u8>)
        requires
            self.wire().len() <= usize::MAX,
        ensures
            v@ == self.wire(),
    {
        let mut v = Vec::new();
        push_u8(&mut v, TAG);
        push_u8(&mut v, self.descriptor_length());
        let ghost start = v@;
        let mut i: usize = 0;
        while i < self.entries.len()
            invariant
                i <= self.entries@.len(),
                v@ == start + concat_map(self.entries@.subrange(0, i as int), entry_wire()),
            decreases self.entries@.len() - i,
        {
            proof {
                lemma_concat_map_push(self.entries@.subrange(0, i as int), self.entries@[i as int], entry_wire());
                assert(self.entries@.subrange(0, i as int).push(self.entries@[i as int]) =~= self.entries@.subrange(0, i + 1));
            }
            push_u16(&mut v, self.entries[i].transport_stream_id);
            push_u16(&mut v, self.entries[i].original_network_id);
            push_u16(&mut v, self.entries[i].service_id);
            i = i + 1;
            assert(v@ =~= start + concat_map(self.entries@.subrange(0, i as int), entry_wire()));
        }
        assert(self.entries@.subrange(0, i as int) =~= self.entries@);
        assert(v@ =~= self.wire());
        v
    }

    /// Writes the descriptor to the front of `buf`; refuses a body over 255 bytes.
    pub fn serialize_into(&self, buf: &mut [u8]) -> (r: Result<usize, Error>)
        requires
            self.wire().len() <= usize::MAX,
        ensures
            emitted_capped(r, old(buf)@, final(buf)@, self.wire(), self.body_bytes().len() as int),
    {
        let len = self.serialized_len();
        if buf.len() < len {
            return Err(Error::OutputBufferTooSmall { need: len, have: buf.len() });
        }
        proof {
            self.lemma_body_len();
        }
        let body_len = ENTRY_LEN * self.entries.len();
        if body_len > MAX_BODY_LEN {
            return Err(Error::SectionLengthOverflow { declared: body_len, available: MAX_BODY_LEN });
        }
        let v = self.encode();
        copy_to_front(buf, &v);
        Ok(len)
    }
}

/// Encoding a well-formed NVOD reference descriptor and parsing the bytes gives it back.
pub proof fn lemma_nvod_reference_encode_parse(d: NvodReferenceDescriptor)
    requires
        d.wf(),
    ensures
        NvodReferenceDescriptor::bytes_ok(d.wire()),
        d.decodes(body_of(d.wire())),
{
    d.lemma_body_len();
    lemma_framed_parses(TAG, d.body_bytes());
    let b = d.body_bytes();
    assert forall|i: int| 0 <= i < d.entries@.len() implies #[trigger] d.entries@[i].decodes(b.subrange(6 * i, 6 * i + 6)) by {
        let e = d.entries@[i];
        let t = b.subrange(6 * i, 6 * i + 6);
        assert(t == entry_wire()(e));
        lemma_be16_of_bytes(e.transport_stream_id);
        lemma_be16_of_bytes(e.original_network_id);
        lemma_be16_of_bytes(e.service_id);
        assert(t.subrange(0, 2) =~= u16_bytes(e.transport_stream_id));
        assert(t.subrange(2, 4) =~= u16_bytes(e.original_network_id));
        assert(t.subrange(4, 6) =~= u16_bytes(e.service_id));
    }
}

/// Parsing an NVOD reference descriptor and encoding the result gives back its bytes.
pub proof fn lemma_nvod_reference_parse_encode(s: Seq<u8>, d: NvodReferenceDescriptor)
    requires
        NvodReferenceDescriptor::bytes_ok(s),
        d.decodes(body_of(s)),
    ensures
        d.wire() == framed_prefix(s),
        d.wf(),
{
    let b = body_of(s);
    let es = d.entries@;
    assert forall|i: int| 0 <= i < es.len() implies #[trigger] entry_wire()(es[i]) == b.subrange(6 * i, 6 * i + 6) by {
        let t = b.subrange(6 * i, 6 * i + 6);
        assert(es[i].decodes(t));
        lemma_bytes_of_be16(t, 0);
        lemma_bytes_of_be16(t, 2);
        lemma_bytes_of_be16(t, 4);
        assert(entry_wire()(es[i]) =~= t);
    }
    lemma_concat_map_blocks(es, entry_wire(), 6, b);
    lemma_reframe(s, TAG);
}

/// A parsed NvodReferenceDescriptor is well formed: it encodes again, and parsing that encoding
/// yields it back.
pub proof fn lemma_nvod_reference_reparse(s: Seq<u8>, d: NvodReferenceDescriptor)
    requires
        NvodReferenceDescriptor::bytes_ok(s),
        d.decodes(body_of(s)),
    ensures
        d.wf(),
        NvodReferenceDescriptor::bytes_ok(d.wire()),
        d.decodes(body_of(d.wire())),
{
    lemma_nvod_reference_encode_parse(d);
}

/// Parsing, encoding and parsing again gives the same value: whatever parses
/// from the encoding of a parsed NvodReferenceDescriptor holds the same entries and equals it
/// otherwise.
pub proof fn lemma_nvod_reference_round_trip(s: Seq<u8>, d: NvodReferenceDescriptor, d2: NvodReferenceDescriptor)
    requires
        NvodReferenceDescriptor::bytes_ok(s),
        d.decodes(body_of(s)),
        d2.decodes(body_of(d.wire())),
    ensures
        d2.entries@ == d.entries@,
        d2 == (NvodReferenceDescriptor { entries: d2.entries, ..d }),
{
    lemma_nvod_reference_reparse(s, d);
    let w = body_of(d.wire());
    assert forall|i: int| 0 <= i < d.entries@.len() implies d2.entries@[i] == d.entries@[i] by {
        assert(d2.entries@[i].decodes(w.subrange(6 * i, 6 * i + 6)));
        assert(d.entries@[i].decodes(w.subrange(6 * i, 6 * i + 6)));
    }
    assert(d2.entries@ =~= d.entries@);
}

} // verus!
