//! Frequency List Descriptor — ETSI EN 300 468 §6.2.17 (tag 0x62).
//!
//! Carried inside the NIT's transport_stream_loop second descriptor loop.
//! Enumerates alternative centre frequencies on which the TS can be found,
//! for handover when coverage changes.

use super::{body_of, descriptor_body, emitted, encode_bcd_field, framed, framed_prefix, header_error, header_ok, lemma_framed_parses, lemma_reframe};
use crate::bcd::{
    bcd_digits_ok, bcd_encode, bcd_to_decimal, bcd_value, lemma_bcd_decode_encode, lemma_bcd_encode_bound,
    lemma_bcd_value_bound, pow10, pow16,
};
use crate::error::{is_invalid, is_out_of_range, Error};
use crate::wire::{
    be32, concat_map, copy_to_front, lemma_be32_of_bytes, lemma_concat_map_blocks, lemma_concat_map_fixed,
    lemma_concat_map_push, push_u8, u32_bytes,
};
use vstd::prelude::*;

verus! {

/// Descriptor tag for frequency_list_descriptor.
pub const TAG: u8 = 0x62;

/// Length of the header (tag byte + length byte).
pub const HEADER_LEN: usize = 2;

/// Length of the coding_type byte inside the descriptor body.
pub const CODING_BYTE_LEN: usize = 1;

/// Length of a single frequency entry in bytes.
pub const ENTRY_LEN: usize = 4;

/// Mask for the coding_type bits (bottom 2 bits); the top 6 bits are reserved.
pub const CODING_TYPE_MASK: u8 = 0x03;

/// Reserved bits (top 6 of the coding byte). Ignored on parse, set to 1 on serialize.
pub const RESERVED_BITS_MASK: u8 = 0xFC;

/// Coding type selects the interpretation of each 4-byte frequency entry.
#[derive(Debug, Clone, Copy, PartialEq, Eq, Structural)]
pub enum CodingType {
    /// Not defined (coding_type = 0b00).
    Undefined,
    /// Satellite — 8 BCD digits, 10 kHz resolution.
    Satellite,
    /// Cable — 8 BCD digits, 100 Hz resolution.
    Cable,
    /// Terrestrial — binary uimsbf 32-bit, 10 Hz resolution.
    Terrestrial,
}

impl CodingType {
    /// The coding type in the low two bits of `v`.
    pub open spec fn spec_from_bits(v: u8) -> Self {
        if v % 4 == 0 {
            CodingType::Undefined
        } else if v % 4 == 1 {
            CodingType::Satellite
        } else if v % 4 == 2 {
            CodingType::Cable
        } else {
            CodingType::Terrestrial
        }
    }

    /// The two-bit code of a coding type.
    pub open spec fn spec_bits(self) -> u8 {
        match self {
            CodingType::Undefined => 0,
            CodingType::Satellite => 1,
            CodingType::Cable => 2,
            CodingType::Terrestrial => 3,
        }
    }
}

/// The four bytes of an entry.
pub open spec fn quad_bytes(q: [u8; 4]) -> Seq<u8> {
    seq![q[0], q[1], q[2], q[3]]
}

pub open spec fn quad_fn() -> spec_fn([u8; 4]) -> Seq<u8> {
    |q: [u8; 4]| quad_bytes(q)
}

/// The 32-bit big-endian value of an entry.
pub open spec fn quad_value(q: [u8; 4]) -> nat {
    be32(quad_bytes(q), 0) as nat
}

/// What `centre_frequencies_hz` reports for the entry `q` under `coding`.
pub open spec fn entry_hz(coding: CodingType, q: [u8; 4]) -> Option<u64> {
    match coding {
        CodingType::Satellite => if bcd_digits_ok(quad_value(q), 8) {
            Some((bcd_value(quad_value(q), 8) * 10_000) as u64)
        } else {
            None
        },
        CodingType::Cable => if bcd_digits_ok(quad_value(q), 8) {
            Some((bcd_value(quad_value(q), 8) * 100) as u64)
        } else {
            None
        },
        CodingType::Terrestrial => Some((quad_value(q) * 10) as u64),
        CodingType::Undefined => None,
    }
}

/// The frequency `hz` can be written under `coding` (after dropping the
/// precision below the field's resolution).
pub open spec fn hz_fits(coding: CodingType, hz: u64) -> bool {
    match coding {
        CodingType::Satellite => hz / 10_000 < pow10(8),
        CodingType::Cable => hz / 100 < pow10(8),
        CodingType::Terrestrial => hz / 10 <= u32::MAX,
        CodingType::Undefined => false,
    }
}

/// The 32-bit field value written for `hz` under `coding`.
pub open spec fn hz_field(coding: CodingType, hz: u64) -> nat {
    match coding {
        CodingType::Satellite => bcd_encode((hz / 10_000) as nat, 8),
        CodingType::Cable => bcd_encode((hz / 100) as nat, 8),
        _ => (hz / 10) as nat,
    }
}

/// Frequency List Descriptor.
#[derive(Debug, Clone, PartialEq, Eq)]
pub struct FrequencyListDescriptor {
    /// Interpretation of every `centre_frequencies_bcd` entry.
    pub coding_type: CodingType,
    /// Raw 4-byte centre_frequency entries in wire order. Interpretation
    /// depends on `coding_type`: BCD for Satellite/Cable, binary for Terrestrial.
    pub centre_frequencies_bcd: Vec<[u8; 4]>,
}

/// The entry holding the 32-bit big-endian bytes of `v`.
fn quad_of(v: u32) -> (q: [u8; 4])
    ensures
        quad_bytes(q) == u32_bytes(v),
{
    let q = [(v / 16777216) as u8, ((v / 65536) % 256) as u8, ((v / 256) % 256) as u8, (v % 256) as u8];
    assert(quad_bytes(q) =~= u32_bytes(v));
    q
}

/// The 32-bit big-endian value of an entry.
fn value_of(q: &[u8; 4]) -> (v: u32)
    ensures
        v == quad_value(*q),
{
    q[0] as u32 * 16777216 + q[1] as u32 * 65536 + q[2] as u32 * 256 + q[3] as u32
}

impl FrequencyListDescriptor {
    /// Hz per BCD-decoded unit for Satellite or Cable, or `None` for
    /// Undefined / Terrestrial (Terrestrial uses binary encoding, not BCD).
    fn hz_per_unit_bcd(&self) -> (r: Option<u64>)
        ensures
            r == match self.coding_type {
                CodingType::Satellite => Some(10_000u64),
                CodingType::Cable => Some(100u64),
                _ => None,
            },
    {
        match self.coding_type {
            CodingType::Satellite => Some(10_000),
            CodingType::Cable => Some(100),
            CodingType::Terrestrial | CodingType::Undefined => None,
        }
    }

    /// Decodes every `centre_frequencies_bcd` entry to Hz, interpreted per
    /// `coding_type`. Each element is `None` if `coding_type` is `Undefined`
    /// or a BCD nibble is invalid (Satellite/Cable).
    pub fn centre_frequencies_hz(&self) -> (r: Vec<Option<u64>>)
        ensures
            r@.len() == self.centre_frequencies_bcd@.len(),
            forall|i: int|
                0 <= i < r@.len() ==> #[trigger] r@[i] == entry_hz(
                    self.coding_type,
                    self.centre_frequencies_bcd@[i],
                ),
    {
        let scale = self.hz_per_unit_bcd();
        let mut out: Vec<Option<u64>> = Vec::new();
        let mut i: usize = 0;
        while i < self.centre_frequencies_bcd.len()
            invariant
                i <= self.centre_frequencies_bcd@.len(),
                out@.len() == i,
                scale == match self.coding_type {
                    CodingType::Satellite => Some(10_000u64),
                    CodingType::Cable => Some(100u64),
                    _ => None,
                },
                forall|j: int|
                    0 <= j < i ==> #[trigger] out@[j] == entry_hz(self.coding_type, self.centre_frequencies_bcd@[j]),
            decreases self.centre_frequencies_bcd@.len() - i,
        {
            let q = &self.centre_frequencies_bcd[i];
            let v = value_of(q);
            let hz = match self.coding_type {
                CodingType::Satellite | CodingType::Cable => {
                    let unit = scale.unwrap();
                    match bcd_to_decimal(v as u64, 8) {
                        Some(d) => {
                            proof {
                                lemma_bcd_value_bound(v as nat, 8);
                                reveal_with_fuel(pow10, 9);
                            }
                            Some(d * unit)
                        },
                        None => None,
                    }
                },
                CodingType::Terrestrial => Some(v as u64 * 10),
                CodingType::Undefined => None,
            };
            out.push(hz);
            i = i + 1;
        }
        out
    }

    /// Replaces the entries by encoding each Hz value per `coding_type`
    /// (values truncate to the field's resolution). `ValueOutOfRange` if
    /// `coding_type` is `Undefined`, a BCD value exceeds 8 digits
    /// (Satellite/Cable), or a binary value exceeds 32 bits (Terrestrial);
    /// `self` is then unchanged.
    pub fn set_centre_frequencies_hz(&mut self, frequencies_hz: &[u64]) -> (r: Result<(), Error>)
        ensures
            r is Ok <==> (old(self).coding_type != CodingType::Undefined && forall|k: int|
                0 <= k < frequencies_hz@.len() ==> hz_fits(old(self).coding_type, #[trigger] frequencies_hz@[k])),
            r is Ok ==> {
                &&& final(self).coding_type == old(self).coding_type
                &&& final(self).centre_frequencies_bcd@.len() == frequencies_hz@.len()
                &&& forall|k: int|
                    0 <= k < frequencies_hz@.len() ==> #[trigger] quad_bytes(final(self).centre_frequencies_bcd@[k])
                        == u32_bytes(hz_field(old(self).coding_type, frequencies_hz@[k]) as u32)
            },
            r matches Err(e) ==> is_out_of_range(e) && *final(self) == *old(self),
    {
        let coding = self.coding_type;
        if coding == CodingType::Undefined {
            return Err(
                Error::ValueOutOfRange {
                    field: "FrequencyListDescriptor::centre_frequency",
                    reason: "coding_type is Undefined; cannot encode frequencies",
                },
            );
        }
        let mut out: Vec<[u8; 4]> = Vec::new();
        let mut i: usize = 0;
        while i < frequencies_hz.len()
            invariant
                coding == self.coding_type,
                coding != CodingType::Undefined,
                i <= frequencies_hz@.len(),
                out@.len() == i,
                forall|k: int| 0 <= k < i ==> hz_fits(coding, #[trigger] frequencies_hz@[k]),
                forall|k: int|
                    0 <= k < i ==> #[trigger] quad_bytes(out@[k]) == u32_bytes(
                        hz_field(coding, frequencies_hz@[k]) as u32,
                    ),
            decreases frequencies_hz@.len() - i,
        {
            let hz = frequencies_hz[i];
            let field: u32 = match coding {
                CodingType::Satellite | CodingType::Cable => {
                    let unit: u64 = if coding == CodingType::Satellite {
                        10_000
                    } else {
                        100
                    };
                    let bcd = encode_bcd_field(hz / unit, 8, "FrequencyListDescriptor::centre_frequency")?;
                    proof {
                        lemma_bcd_encode_bound((hz / unit) as nat, 8);
                        reveal_with_fuel(pow16, 9);
                    }
                    bcd as u32
                },
                _ => {
                    let units = hz / 10;
                    if units > u32::MAX as u64 {
                        return Err(
                            Error::ValueOutOfRange {
                                field: "frequency_list centre_frequency",
                                reason: "terrestrial frequency exceeds the 32-bit (×10 Hz) wire field",
                            },
                        );
                    }
                    units as u32
                },
            };
            out.push(quad_of(field));
            i = i + 1;
        }
        self.centre_frequencies_bcd = out;
        Ok(())
    }

    /// Parsing succeeds on exactly these bytes.
    pub open spec fn bytes_ok(s: Seq<u8>) -> bool {
        header_ok(s, TAG) && s[1] >= 1 && (s[1] - 1) % 4 == 0
    }

    /// The error reported for bytes that do not parse.
    pub open spec fn bytes_error(e: Error, s: Seq<u8>) -> bool {
        if header_ok(s, TAG) {
            is_invalid(e, TAG)
        } else {
            header_error(e, s, TAG)
        }
    }

    /// `self` is what parsing the body `b` yields.
    pub open spec fn decodes(&self, b: Seq<u8>) -> bool {
        &&& self.coding_type == CodingType::spec_from_bits(b[0])
        &&& self.centre_frequencies_bcd@.len() * 4 + 1 == b.len()
        &&& forall|i: int|
            0 <= i < self.centre_frequencies_bcd@.len() ==> #[trigger] quad_bytes(self.centre_frequencies_bcd@[i])
                == b.subrange(1 + 4 * i, 5 + 4 * i)
    }

    /// The coding byte written: reserved bits set over the coding type.
    pub open spec fn coding_byte(&self) -> u8 {
        (252 + self.coding_type.spec_bits()) as u8
    }

    /// The body bytes.
    pub open spec fn body_bytes(&self) -> Seq<u8> {
        seq![self.coding_byte()] + concat_map(self.centre_frequencies_bcd@, quad_fn())
    }

    /// The complete wire encoding; the length byte holds the body length modulo 256.
    pub open spec fn wire(&self) -> Seq<u8> {
        framed(TAG, self.body_bytes())
    }

    /// The body fits its length byte.
    pub open spec fn wf(&self) -> bool {
        1 + 4 * self.centre_frequencies_bcd@.len() <= 255
    }

    /// The reserved bits of the coding byte of `s` are all ones.
    pub open spec fn canonical(s: Seq<u8>) -> bool {
        body_of(s)[0] >= 252
    }

    proof fn lemma_body_len(&self)
        ensures
            self.body_bytes().len() == 1 + 4 * self.centre_frequencies_bcd@.len(),
            forall|i: int|
                0 <= i < self.centre_frequencies_bcd@.len() ==> concat_map(
                    self.centre_frequencies_bcd@,
                    quad_fn(),
                ).subrange(4 * i, 4 * i + 4) == #[trigger] quad_fn()(self.centre_frequencies_bcd@[i]),
    {
        let es = self.centre_frequencies_bcd@;
        assert forall|i: int| 0 <= i < es.len() implies #[trigger] quad_fn()(es[i]).len() == 4 by {}
        lemma_concat_map_fixed(es, quad_fn(), 4);
    }

    /// Parses a frequency list descriptor from the front of `bytes`.
    pub fn parse(bytes: &[u8]) -> (r: Result<Self, Error>)
        ensures
            r is Ok <==> Self::bytes_ok(bytes@),
            r matches Ok(d) ==> d.decodes(body_of(bytes@)),
            r matches Err(e) ==> Self::bytes_error(e, bytes@),
    {
        let body = descriptor_body(bytes, TAG, "FrequencyListDescriptor", "expected tag 0x62")?;
        if body.len() < CODING_BYTE_LEN {
            return Err(
                Error::InvalidDescriptor { tag: TAG, reason: "body too short (need at least coding_type byte)" },
            );
        }
        if (body.len() - CODING_BYTE_LEN) % ENTRY_LEN != 0 {
            return Err(
                Error::InvalidDescriptor { tag: TAG, reason: "body length minus coding byte must be multiple of 4" },
            );
        }
        let coding_byte = body[0];
        let coding_type = match coding_byte % 4 {
            0 => CodingType::Undefined,
            1 => CodingType::Satellite,
            2 => CodingType::Cable,
            _ => CodingType::Terrestrial,
        };
        let entry_count = (body.len() - CODING_BYTE_LEN) / ENTRY_LEN;
        let mut centre_frequencies_bcd: Vec<[u8; 4]> = Vec::new();
        let mut offset: usize = CODING_BYTE_LEN;
        let mut i: usize = 0;
        while i < entry_count
            invariant
                entry_count * 4 + 1 == body.len(),
                i <= entry_count,
                offset == 1 + 4 * i,
                centre_frequencies_bcd@.len() == i,
                forall|j: int|
                    0 <= j < i ==> #[trigger] quad_bytes(centre_frequencies_bcd@[j]) == body@.subrange(
                        1 + 4 * j,
                        5 + 4 * j,
                    ),
            decreases entry_count - i,
        {
            let entry = [body[offset], body[offset + 1], body[offset + 2], body[offset + 3]];
            assert(quad_bytes(entry) =~= body@.subrange(1 + 4 * i, 5 + 4 * i));
            centre_frequencies_bcd.push(entry);
            offset = offset + ENTRY_LEN;
            i = i + 1;
        }
        Ok(FrequencyListDescriptor { coding_type, centre_frequencies_bcd })
    }

    /// Length of the wire encoding.
    pub fn serialized_len(&self) -> (n: usize)
        requires
            self.wire().len() <= usize::MAX,
        ensures
            n == self.wire().len(),
    {
        proof {
            self.lemma_body_len();
        }
        HEADER_LEN + CODING_BYTE_LEN + self.centre_frequencies_bcd.len() * ENTRY_LEN
    }

    fn encode(&self) -> (v: Vec<u8>)
        requires
            self.wire().len() <= usize::MAX,
        ensures
            v@ == self.wire(),
    {
        proof {
            self.lemma_body_len();
        }
        let body_length = CODING_BYTE_LEN + self.centre_frequencies_bcd.len() * ENTRY_LEN;
        let bits: u8 = match self.coding_type {
            CodingType::Undefined => 0,
            CodingType::Satellite => 1,
            CodingType::Cable => 2,
            CodingType::Terrestrial => 3,
        };
        let mut v: Vec<u8> = Vec::new();
        push_u8(&mut v, TAG);
        push_u8(&mut v, (body_length % 256) as u8);
        push_u8(&mut v, RESERVED_BITS_MASK + bits);
        let ghost start = v@;
        let mut i: usize = 0;
        while i < self.centre_frequencies_bcd.len()
            invariant
                i <= self.centre_frequencies_bcd@.len(),
                v@ == start + concat_map(self.centre_frequencies_bcd@.subrange(0, i as int), quad_fn()),
            decreases self.centre_frequencies_bcd@.len() - i,
        {
            proof {
                lemma_concat_map_push(
                    self.centre_frequencies_bcd@.subrange(0, i as int),
                    self.centre_frequencies_bcd@[i as int],
                    quad_fn(),
                );
                assert(self.centre_frequencies_bcd@.subrange(0, i as int).push(self.centre_frequencies_bcd@[i as int])
                    =~= self.centre_frequencies_bcd@.subrange(0, i + 1));
            }
            let q = &self.centre_frequencies_bcd[i];
            push_u8(&mut v, q[0]);
            push_u8(&mut v, q[1]);
            push_u8(&mut v, q[2]);
            push_u8(&mut v, q[3]);
            i = i + 1;
            assert(v@ =~= start + concat_map(self.centre_frequencies_bcd@.subrange(0, i as int), quad_fn()));
        }
        assert(self.centre_frequencies_bcd@.subrange(0, i as int) =~= self.centre_frequencies_bcd@);
        assert(v@ =~= self.wire());
        v
    }

    /// Writes the descriptor to the front of `buf`. The length byte is the
    /// body length truncated to 8 bits.
    pub fn serialize_into(&self, buf: &mut [u8]) -> (r: Result<usize, Error>)
        requires
            self.wire().len() <= usize::MAX,
        ensures
            emitted(r, old(buf)@, final(buf)@, self.wire()),
    {
        let need = self.serialized_len();
        if buf.len() < need {
            return Err(Error::OutputBufferTooSmall { need, have: buf.len() });
        }
        let v = self.encode();
        copy_to_front(buf, &v);
        Ok(need)
    }
}

/// Encoding a well-formed frequency list descriptor and parsing the bytes gives it back.
pub proof fn lemma_frequency_list_encode_parse(d: FrequencyListDescriptor)
    requires
        d.wf(),
    ensures
        FrequencyListDescriptor::bytes_ok(d.wire()),
        d.decodes(body_of(d.wire())),
        FrequencyListDescriptor::canonical(d.wire()),
{
    d.lemma_body_len();
    let b = d.body_bytes();
    lemma_framed_parses(TAG, b);
    let es = d.centre_frequencies_bcd@;
    let cm = concat_map(es, quad_fn());
    assert forall|i: int| 0 <= i < es.len() implies #[trigger] quad_bytes(es[i]) == b.subrange(1 + 4 * i, 5 + 4 * i) by {
        assert(quad_fn()(es[i]) == cm.subrange(4 * i, 4 * i + 4));
        assert(b.subrange(1 + 4 * i, 5 + 4 * i) =~= cm.subrange(4 * i, 4 * i + 4));
    }
}

/// Parsing a frequency list descriptor whose reserved bits are all ones and
/// encoding the result gives back its bytes.
pub proof fn lemma_frequency_list_parse_encode(s: Seq<u8>, d: FrequencyListDescriptor)
    requires
        FrequencyListDescriptor::bytes_ok(s),
        FrequencyListDescriptor::canonical(s),
        d.decodes(body_of(s)),
    ensures
        d.wire() == framed_prefix(s),
        d.wf(),
{
    let b = body_of(s);
    let es = d.centre_frequencies_bcd@;
    let run = b.subrange(1, b.len() as int);
    assert forall|i: int| 0 <= i < es.len() implies #[trigger] quad_fn()(es[i]) == run.subrange(4 * i, 4 * i + 4) by {
        assert(run.subrange(4 * i, 4 * i + 4) =~= b.subrange(1 + 4 * i, 5 + 4 * i));
    }
    lemma_concat_map_blocks(es, quad_fn(), 4, run);
    lemma_reframe(s, TAG);
    assert(d.body_bytes() =~= b);
}

/// Setting the centre frequencies and reading them back gives each frequency
/// rounded down to the resolution of the coding type.
pub proof fn lemma_frequency_list_set_get(coding: CodingType, hz: u64, q: [u8; 4])
    requires
        hz_fits(coding, hz),
        quad_bytes(q) == u32_bytes(hz_field(coding, hz) as u32),
    ensures
        entry_hz(coding, q) == match coding {
            CodingType::Satellite => Some(((hz / 10_000) * 10_000) as u64),
            CodingType::Cable => Some(((hz / 100) * 100) as u64),
            _ => Some(((hz / 10) * 10) as u64),
        },
{
    let f = hz_field(coding, hz);
    match coding {
        CodingType::Satellite => {
            lemma_bcd_encode_bound((hz / 10_000) as nat, 8);
            reveal_with_fuel(pow16, 9);
            lemma_bcd_decode_encode((hz / 10_000) as nat, 8);
        },
        CodingType::Cable => {
            lemma_bcd_encode_bound((hz / 100) as nat, 8);
            reveal_with_fuel(pow16, 9);
            lemma_bcd_decode_encode((hz / 100) as nat, 8);
        },
        _ => {},
    }
    lemma_be32_of_bytes(f as u32);
    assert(quad_value(q) == be32(u32_bytes(f as u32), 0));
}

/// A parsed FrequencyListDescriptor is well formed: it encodes again, and parsing that encoding
/// yields it back.
pub proof fn lemma_frequency_list_reparse(s: Seq<u8>, d: FrequencyListDescriptor)
    requires
        FrequencyListDescriptor::bytes_ok(s),
        d.decodes(body_of(s)),
    ensures
        d.wf(),
        FrequencyListDescriptor::bytes_ok(d.wire()),
        d.decodes(body_of(d.wire())),
{
    lemma_frequency_list_encode_parse(d);
}

proof fn lemma_frequencies_unique(w: Seq<u8>, d: FrequencyListDescriptor, d2: FrequencyListDescriptor)
    requires
        d.decodes(w),
        d2.decodes(w),
    ensures
        d2.centre_frequencies_bcd@ == d.centre_frequencies_bcd@,
        d2.coding_type == d.coding_type,
{
    assert forall|i: int| 0 <= i < d.centre_frequencies_bcd@.len() implies d2.centre_frequencies_bcd@[i]
        == d.centre_frequencies_bcd@[i] by {
        let a = d2.centre_frequencies_bcd@[i];
        let b = d.centre_frequencies_bcd@[i];
        assert(quad_bytes(a) == w.subrange(1 + 4 * i, 5 + 4 * i));
        assert(quad_bytes(b) == w.subrange(1 + 4 * i, 5 + 4 * i));
        assert(quad_bytes(a)[0] == quad_bytes(b)[0] && quad_bytes(a)[1] == quad_bytes(b)[1] && quad_bytes(a)[2]
            == quad_bytes(b)[2] && quad_bytes(a)[3] == quad_bytes(b)[3]);
        assert(a =~= b);
    }
    assert(d2.centre_frequencies_bcd@ =~= d.centre_frequencies_bcd@);
}

/// Parsing, encoding and parsing again gives the same value: whatever parses
/// from the encoding of a parsed FrequencyListDescriptor holds the same
/// frequencies and equals it otherwise.
pub proof fn lemma_frequency_list_round_trip(s: Seq<u8>, d: FrequencyListDescriptor, d2: FrequencyListDescriptor)
    requires
        FrequencyListDescriptor::bytes_ok(s),
        d.decodes(body_of(s)),
        d2.decodes(body_of(d.wire())),
    ensures
        d2.centre_frequencies_bcd@ == d.centre_frequencies_bcd@,
        d2 == (FrequencyListDescriptor { centre_frequencies_bcd: d2.centre_frequencies_bcd, ..d }),
{
    lemma_frequency_list_reparse(s, d);
    lemma_frequencies_unique(body_of(d.wire()), d, d2);
}

impl CodingType {
    /// The EN 300 468 frequency list coding_type codes: each code and the variant it stands for, in literal values.
    pub proof fn lemma_codes()
        ensures
            CodingType::spec_from_bits(0) == CodingType::Undefined,
            CodingType::spec_from_bits(1) == CodingType::Satellite,
            CodingType::spec_from_bits(2) == CodingType::Cable,
            CodingType::spec_from_bits(3) == CodingType::Terrestrial,
            CodingType::Undefined.spec_bits() == 0,
            CodingType::Satellite.spec_bits() == 1,
            CodingType::Cable.spec_bits() == 2,
            CodingType::Terrestrial.spec_bits() == 3,
    {
    }
}

/// The coding_type of a parsed frequency list descriptor, in the literal codes of
/// EN 300 468 (the low two bits of the first body byte): 0 not defined, 1
/// satellite, 2 cable, 3 terrestrial.
pub proof fn lemma_frequency_list_coding_codes(b: Seq<u8>, d: FrequencyListDescriptor)
    requires
        d.decodes(b),
    ensures
        b[0] % 4 == 0 ==> d.coding_type == CodingType::Undefined,
        b[0] % 4 == 1 ==> d.coding_type == CodingType::Satellite,
        b[0] % 4 == 2 ==> d.coding_type == CodingType::Cable,
        b[0] % 4 == 3 ==> d.coding_type == CodingType::Terrestrial,
{
}

/// The units of a centre frequency by coding type (EN 300 468): satellite, eight
/// BCD digits of 10 kHz; cable, eight BCD digits of 100 Hz; terrestrial, a binary
/// count of 10 Hz; an undefined coding type gives no frequency.
pub proof fn lemma_frequency_units(q: [u8; 4])
    ensures
        bcd_digits_ok(quad_value(q), 8) ==> entry_hz(CodingType::Satellite, q) == Some(
            (bcd_value(quad_value(q), 8) * 10_000) as u64,
        ),
        bcd_digits_ok(quad_value(q), 8) ==> entry_hz(CodingType::Cable, q) == Some(
            (bcd_value(quad_value(q), 8) * 100) as u64,
        ),
        !bcd_digits_ok(quad_value(q), 8) ==> entry_hz(CodingType::Satellite, q) is None && entry_hz(
            CodingType::Cable,
            q,
        ) is None,
        entry_hz(CodingType::Terrestrial, q) == Some((quad_value(q) * 10) as u64),
        entry_hz(CodingType::Undefined, q) is None,
{
}

} // verus!
