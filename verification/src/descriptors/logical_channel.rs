//! Logical Channel Descriptor — EACEM/NorDig/D-Book private (tag 0x83).
//!
//! Carried inside the NIT transport_stream_loop second descriptor loop.
//! Assigns an LCN (Logical Channel Number) to each service, plus a
//! `visible_service` flag for hiding services from the channel list.

use super::{body_of, emit, emitted, framed, framed_prefix, lemma_framed_parses, lemma_reframe, HEADER_LEN};
use crate::error::{is_invalid, is_too_short, Error};
use crate::wire::{
    be16, concat_map, lemma_be16_of_bytes, lemma_bytes_of_be16, lemma_concat_map_blocks, lemma_concat_map_fixed,
    lemma_concat_map_push, push_u16, push_u8, read_u16, u16_bytes,
};
use vstd::prelude::*;

verus! {

/// Descriptor tag for logical_channel_descriptor.
pub const TAG: u8 = 0x83;

/// Size of one channel entry.
const ENTRY_LEN: usize = 4;

/// visible_service_flag.
const VISIBLE_MASK: u8 = 0x80;

/// The reserved bits, written as ones.
const RESERVED_BITS_MASK: u8 = 0x7C;

/// The top two bits of the channel number.
const LCN_HI_MASK: u8 = 0x03;

/// One (service, channel number) assignment.
#[derive(Debug, Clone, Copy, PartialEq, Eq)]
pub struct LogicalChannelEntry {
    /// service_id(16).
    pub service_id: u16,
    /// visible_service_flag(1).
    pub visible_service: bool,
    /// logical_channel_number(10).
    pub logical_channel_number: u16,
}

/// The flags byte of an entry.
pub open spec fn flags_byte(vis: bool, lcn: u16) -> u8 {
    (if vis {
        0x80u8
    } else {
        0u8
    }) | 0x7C | (((lcn >> 8u16) as u8) & 0x03)
}

proof fn lemma_lcn_bits(f: u8, b: u8, lcn: u16, vis: bool)
    by (bit_vector)
    ensures
        lcn < 1024 ==> ((((((if vis { 0x80u8 } else { 0u8 }) | 0x7C | (((lcn >> 8u16) as u8) & 0x03)) & 0x03)
            as u16) << 8u16) | (((lcn & 0xFF) as u8) as u16)) == lcn,
        (((if vis { 0x80u8 } else { 0u8 }) | 0x7C | (((lcn >> 8u16) as u8) & 0x03)) & 0x80 != 0) == vis,
        f & 0x7C == 0x7C ==> (if f & 0x80 != 0 { 0x80u8 } else { 0u8 }) | 0x7C | ((((((((f & 0x03) as u16)
            << 8u16) | (b as u16)) >> 8u16) as u8) & 0x03)) == f,
        ((((((f & 0x03) as u16) << 8u16) | (b as u16)) & 0xFF) as u8) == b,
        (((f & 0x03) as u16) << 8u16) | (b as u16) < 1024,
{
}

impl LogicalChannelEntry {
    /// `self` is what parsing the four entry bytes `t` yields (the reserved
    /// bits are ignored).
    pub open spec fn decodes(&self, t: Seq<u8>) -> bool {
        &&& self.service_id == be16(t, 0)
        &&& self.visible_service == (t[2] & 0x80 != 0)
        &&& self.logical_channel_number == (((t[2] & 0x03) as u16) << 8u16) | (t[3] as u16)
    }
}

/// The four bytes of an entry.
pub open spec fn entry_wire() -> spec_fn(LogicalChannelEntry) -> Seq<u8> {
    |e: LogicalChannelEntry| u16_bytes(e.service_id) + seq![
        flags_byte(e.visible_service, e.logical_channel_number),
        (e.logical_channel_number & 0xFF) as u8,
    ]
}

/// Logical Channel Descriptor.
#[derive(Debug, Clone, PartialEq, Eq)]
pub struct LogicalChannelDescriptor {
    /// The channel assignments in wire order.
    pub entries: Vec<LogicalChannelEntry>,
}

impl LogicalChannelDescriptor {
    /// Parsing succeeds on exactly these bytes.
    pub open spec fn bytes_ok(s: Seq<u8>) -> bool {
        s.len() >= 2 && s[0] == TAG && s[1] % 4 == 0 && s.len() >= 2 + s[1]
    }

    /// The error reported for bytes that do not parse (the length byte is
    /// checked for whole entries before the body is looked for).
    pub open spec fn bytes_error(e: Error, s: Seq<u8>) -> bool {
        if s.len() < 2 {
            is_too_short(e, 2, s.len() as int)
        } else if s[0] != TAG {
            is_invalid(e, s[0])
        } else if s[1] % 4 != 0 {
            is_invalid(e, TAG)
        } else {
            is_too_short(e, 2 + s[1], s.len() as int)
        }
    }

    /// `self` is what parsing the body `b` yields: one entry per four bytes.
    pub open spec fn decodes(&self, b: Seq<u8>) -> bool {
        &&& self.entries@.len() * 4 == b.len()
        &&& forall|i: int|
            0 <= i < self.entries@.len() ==> #[trigger] self.entries@[i].decodes(b.subrange(4 * i, 4 * i + 4))
    }

    /// The body bytes.
    pub open spec fn body_bytes(&self) -> Seq<u8> {
        concat_map(self.entries@, entry_wire())
    }

    /// The complete wire encoding.
    pub open spec fn wire(&self) -> Seq<u8> {
        framed(TAG, self.body_bytes())
    }

    /// Every channel number fits 10 bits and the body fits its length byte.
    pub open spec fn wf(&self) -> bool {
        &&& forall|i: int| 0 <= i < self.entries@.len() ==> (#[trigger] self.entries@[i]).logical_channel_number < 1024
        &&& self.entries@.len() * 4 <= 255
    }

    /// The reserved bits of every entry are ones.
    pub open spec fn canonical(b: Seq<u8>) -> bool {
        forall|i: int| 0 <= i < b.len() / 4 ==> #[trigger] b[4 * i + 2] & 0x7C == 0x7C
    }

    proof fn lemma_body_len(&self)
        ensures
            self.body_bytes().len() == 4 * self.entries@.len(),
            forall|i: int|
                0 <= i < self.entries@.len() ==> self.body_bytes().subrange(4 * i, 4 * i + 4)
                    == #[trigger] entry_wire()(self.entries@[i]),
    {
        let es = self.entries@;
        assert forall|i: int| 0 <= i < es.len() implies #[trigger] entry_wire()(es[i]).len() == 4 by {}
        lemma_concat_map_fixed(es, entry_wire(), 4);
    }

    /// Parses a logical channel descriptor from the front of `bytes`.
    pub fn parse(bytes: &[u8]) -> (r: Result<Self, Error>)
        ensures
            r is Ok <==> Self::bytes_ok(bytes@),
            r matches Ok(d) ==> d.decodes(body_of(bytes@)),
            r matches Err(e) ==> Self::bytes_error(e, bytes@),
    {
        if bytes.len() < HEADER_LEN {
            return Err(
                Error::BufferTooShort { need: HEADER_LEN, have: bytes.len(), what: "LogicalChannelDescriptor header" },
            );
        }
        if bytes[0] != TAG {
            return Err(
                Error::InvalidDescriptor { tag: bytes[0], reason: "unexpected tag for logical_channel_descriptor" },
            );
        }
        let length = bytes[1] as usize;
        if length % ENTRY_LEN != 0 {
            return Err(Error::InvalidDescriptor { tag: TAG, reason: "descriptor_length must be a multiple of 4" });
        }
        let end = HEADER_LEN + length;
        if bytes.len() < end {
            return Err(Error::BufferTooShort { need: end, have: bytes.len(), what: "LogicalChannelDescriptor body" });
        }
        let body = &bytes[HEADER_LEN..end];
        let n = length / ENTRY_LEN;
        let mut entries: Vec<LogicalChannelEntry> = Vec::new();
        let mut i: usize = 0;
        while i < n
            invariant
                n * 4 == body.len(),
                i <= n,
                entries@.len() == i,
                forall|j: int| 0 <= j < i ==> #[trigger] entries@[j].decodes(body@.subrange(4 * j, 4 * j + 4)),
            decreases n - i,
        {
            assert(i * 4 + 4 <= n * 4) by (nonlinear_arith)
                requires
                    i < n,
            ;
            let p: usize = i * 4;
            let flags = body[p + 2];
            let e = LogicalChannelEntry {
                service_id: read_u16(body, p),
                visible_service: flags & VISIBLE_MASK != 0,
                logical_channel_number: (((flags & LCN_HI_MASK) as u16) << 8u16) | (body[p + 3] as u16),
            };
            assert(e.decodes(body@.subrange(4 * i, 4 * i + 4)));
            entries.push(e);
            i = i + 1;
        }
        Ok(LogicalChannelDescriptor { entries })
    }

    /// Length of the wire encoding.
    pub fn serialized_len(&self) -> (n: usize)
        requires
            self.wire().len() <= usize::MAX,
        ensures
            n == self.wire().len(),
    {
        proof {
            self.lemma_body_len();
        }
        HEADER_LEN + ENTRY_LEN * self.entries.len()
    }

    /// The `descriptor_length` byte: the body length, truncated to 8 bits.
    pub fn descriptor_length(&self) -> (n: u8)
        requires
            self.wire().len() <= usize::MAX,
        ensures
            n == (self.body_bytes().len() % 256) as u8,
    {
        proof {
            self.lemma_body_len();
        }
        ((ENTRY_LEN * self.entries.len()) % 256) as u8
    }

    fn encode(&self) -> (v: Vec<u8>)
        requires
            self.wire().len() <= usize::MAX,
        ensures
            v@ == self.wire(),
    {
        let mut v = Vec::new();
        push_u8(&mut v, TAG);
        push_u8(&mut v, self.descriptor_length());
        let ghost start = v@;
        let mut i: usize = 0;
        while i < self.entries.len()
            invariant
                i <= self.entries@.len(),
                v@ == start + concat_map(self.entries@.subrange(0, i as int), entry_wire()),
            decreases self.entries@.len() - i,
        {
            proof {
                lemma_concat_map_push(self.entries@.subrange(0, i as int), self.entries@[i as int], entry_wire());
                assert(self.entries@.subrange(0, i as int).push(self.entries@[i as int]) =~= self.entries@.subrange(0, i + 1));
            }
            let e = &self.entries[i];
            push_u16(&mut v, e.service_id);
            let visible_byte: u8 = if e.visible_service {
                VISIBLE_MASK
            } else {
                0
            };
            push_u8(&mut v, visible_byte | RESERVED_BITS_MASK | (((e.logical_channel_number >> 8u16) as u8) & LCN_HI_MASK));
            push_u8(&mut v, (e.logical_channel_number & 0xFF) as u8);
            i = i + 1;
            assert(v@ =~= start + concat_map(self.entries@.subrange(0, i as int), entry_wire()));
        }
        assert(self.entries@.subrange(0, i as int) =~= self.entries@);
        assert(v@ =~= self.wire());
        v
    }

    /// Writes the descriptor to the front of `buf`.
    pub fn serialize_into(&self, buf: &mut [u8]) -> (r: Result<usize, Error>)
        requires
            self.wire().len() <= usize::MAX,
        ensures
            emitted(r, old(buf)@, final(buf)@, self.wire()),
    {
        let v = self.encode();
        emit(buf, &v)
    }
}

/// Encoding a well-formed logical channel descriptor and parsing the bytes gives it back.
pub proof fn lemma_logical_channel_encode_parse(d: LogicalChannelDescriptor)
    requires
        d.wf(),
    ensures
        LogicalChannelDescriptor::bytes_ok(d.wire()),
        d.decodes(body_of(d.wire())),
{
    d.lemma_body_len();
    lemma_framed_parses(TAG, d.body_bytes());
    let b = d.body_bytes();
    assert forall|i: int| 0 <= i < d.entries@.len() implies #[trigger] d.entries@[i].decodes(b.subrange(4 * i, 4 * i + 4)) by {
        let e = d.entries@[i];
        let t = b.subrange(4 * i, 4 * i + 4);
        assert(t == entry_wire()(e));
        assert(d.entries@[i].logical_channel_number < 1024);
        lemma_be16_of_bytes(e.service_id);
        assert(t.subrange(0, 2) =~= u16_bytes(e.service_id));
        lemma_lcn_bits(0, 0, e.logical_channel_number, e.visible_service);
    }
}

/// Parsing a logical channel descriptor and encoding the result gives back its bytes.
pub proof fn lemma_logical_channel_parse_encode(s: Seq<u8>, d: LogicalChannelDescriptor)
    requires
        LogicalChannelDescriptor::bytes_ok(s),
        LogicalChannelDescriptor::canonical(body_of(s)),
        d.decodes(body_of(s)),
    ensures
        d.wire() == framed_prefix(s),
        d.wf(),
{
    let b = body_of(s);
    let es = d.entries@;
    assert forall|i: int| 0 <= i < es.len() implies #[trigger] entry_wire()(es[i]) == b.subrange(4 * i, 4 * i + 4) by {
        let t = b.subrange(4 * i, 4 * i + 4);
        assert(es[i].decodes(t));
        lemma_bytes_of_be16(t, 0);
        assert(b[4 * i + 2] & 0x7C == 0x7C);
        lemma_lcn_bits(t[2], t[3], 0, false);
        assert(entry_wire()(es[i]) =~= t);
    }
    lemma_concat_map_blocks(es, entry_wire(), 4, b);
    lemma_reframe(s, TAG);
    assert forall|i: int| 0 <= i < es.len() implies (#[trigger] es[i]).logical_channel_number < 1024 by {
        let t = b.subrange(4 * i, 4 * i + 4);
        assert(es[i].decodes(t));
        lemma_lcn_bits(t[2], t[3], 0, false);
    }
}

/// A parsed LogicalChannelDescriptor is well formed: it encodes again, and parsing that encoding
/// yields it back.
pub proof fn lemma_logical_channel_reparse(s: Seq<u8>, d: LogicalChannelDescriptor)
    requires
        LogicalChannelDescriptor::bytes_ok(s),
        d.decodes(body_of(s)),
    ensures
        d.wf(),
        LogicalChannelDescriptor::bytes_ok(d.wire()),
        d.decodes(body_of(d.wire())),
{
    let b = body_of(s);
    let es = d.entries@;
    lemma_reframe(s, TAG);
    assert forall|i: int| 0 <= i < es.len() implies (#[trigger] es[i]).logical_channel_number < 1024 by {
        let t = b.subrange(4 * i, 4 * i + 4);
        assert(es[i].decodes(t));
        lemma_lcn_bits(t[2], t[3], 0, false);
    }
    lemma_logical_channel_encode_parse(d);
}

/// Parsing, encoding and parsing again gives the same value: whatever parses
/// from the encoding of a parsed LogicalChannelDescriptor holds the same entries and equals it
/// otherwise.
pub proof fn lemma_logical_channel_round_trip(s: Seq<u8>, d: LogicalChannelDescriptor, d2: LogicalChannelDescriptor)
    requires
        LogicalChannelDescriptor::bytes_ok(s),
        d.decodes(body_of(s)),
        d2.decodes(body_of(d.wire())),
    ensures
        d2.entries@ == d.entries@,
        d2 == (LogicalChannelDescriptor { entries: d2.entries, ..d }),
{
    lemma_logical_channel_reparse(s, d);
    let w = body_of(d.wire());
    assert forall|i: int| 0 <= i < d.entries@.len() implies d2.entries@[i] == d.entries@[i] by {
        assert(d2.entries@[i].decodes(w.subrange(4 * i, 4 * i + 4)));
        assert(d.entries@[i].decodes(w.subrange(4 * i, 4 * i + 4)));
    }
    assert(d2.entries@ =~= d.entries@);
}

} // verus!
