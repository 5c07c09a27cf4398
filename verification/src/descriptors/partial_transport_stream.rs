//! Partial Transport Stream Descriptor — ETSI EN 300 468 §7.2.1 (tag 0x63).
//!
//! Carried in the SIT (Selection Information Table) of a partial TS to
//! describe its bit-rate / smoothing-buffer characteristics. The body is a
//! fixed 8-byte structure of three reserved-prefixed fields:
//!
//! - reserved_future_use (2) + peak_rate (22)
//! - reserved_future_use (2) + minimum_overall_smoothing_rate (22)
//! - reserved_future_use (2) + maximum_overall_smoothing_buffer (14)
//!
//! Reserved bits are ignored on parse and written as ones on serialize.

use super::{body_of, emit, emitted, framed, framed_prefix, header_error, header_ok, lemma_framed_parses, lemma_reframe, descriptor_body, HEADER_LEN};
use crate::error::{is_invalid, Error};
use crate::wire::push_u8;
use vstd::prelude::*;

verus! {

/// Descriptor tag for partial_transport_stream_descriptor.
pub const TAG: u8 = 0x63;

/// The fixed body length.
const BODY_LEN: u8 = 8;

/// Largest 22-bit value.
const MAX_22: u32 = 0x3F_FFFF;

/// Largest 14-bit value.
const MAX_14: u16 = 0x3FFF;

/// Partial Transport Stream Descriptor.
#[derive(Debug, Clone, PartialEq, Eq)]
pub struct PartialTransportStreamDescriptor {
    /// peak_rate(22), in units of 400 bit/s.
    pub peak_rate: u32,
    /// minimum_overall_smoothing_rate(22), in units of 400 bit/s.
    pub minimum_overall_smoothing_rate: u32,
    /// maximum_overall_smoothing_buffer(14), in bytes.
    pub maximum_overall_smoothing_buffer: u16,
}

/// A 22-bit value read from three bytes (the top two bits are reserved).
pub open spec fn read22(b0: u8, b1: u8, b2: u8) -> u32 {
    (((b0 & 0x3F) as u32) << 16u32) | ((b1 as u32) << 8u32) | (b2 as u32)
}

/// The three bytes carrying a 22-bit value, reserved bits set.
pub open spec fn bytes22(v: u32) -> Seq<u8> {
    seq![0xC0 | (((v >> 16u32) as u8) & 0x3F), (v >> 8u32) as u8, v as u8]
}

proof fn lemma_pts_bits(b0: u8, b1: u8, b2: u8, v: u32, w: u16)
    by (bit_vector)
    ensures
        v <= 0x3F_FFFF ==> (((((0xC0 | (((v >> 16u32) as u8) & 0x3F)) & 0x3F) as u32) << 16u32) | ((((v
            >> 8u32) as u8) as u32) << 8u32) | ((v as u8) as u32)) == v,
        w <= 0x3FFF ==> (((((0xC0 | (((w >> 8u16) as u8) & 0x3F)) & 0x3F) as u16) << 8u16) | ((w as u8)
            as u16)) == w,
        b0 & 0xC0 == 0xC0 ==> {
            let x = (((b0 & 0x3F) as u32) << 16u32) | ((b1 as u32) << 8u32) | (b2 as u32);
            &&& 0xC0 | (((x >> 16u32) as u8) & 0x3F) == b0
            &&& (x >> 8u32) as u8 == b1
            &&& x as u8 == b2
        },
        b0 & 0xC0 == 0xC0 ==> {
            let y = (((b0 & 0x3F) as u16) << 8u16) | (b1 as u16);
            &&& 0xC0 | (((y >> 8u16) as u8) & 0x3F) == b0
            &&& y as u8 == b1
        },
        (((b0 & 0x3F) as u32) << 16u32) | ((b1 as u32) << 8u32) | (b2 as u32) <= 0x3F_FFFF,
        (((b0 & 0x3F) as u16) << 8u16) | (b1 as u16) <= 0x3FFF,
{
}

impl PartialTransportStreamDescriptor {
    /// Parsing succeeds on exactly these bytes.
    pub open spec fn bytes_ok(s: Seq<u8>) -> bool {
        header_ok(s, TAG) && s[1] == 8
    }

    /// The error reported for bytes that do not parse.
    pub open spec fn bytes_error(e: Error, s: Seq<u8>) -> bool {
        if header_ok(s, TAG) {
            is_invalid(e, TAG)
        } else {
            header_error(e, s, TAG)
        }
    }

    /// The reserved bits are ones.
    pub open spec fn canonical(b: Seq<u8>) -> bool {
        b[0] & 0xC0 == 0xC0 && b[3] & 0xC0 == 0xC0 && b[6] & 0xC0 == 0xC0
    }

    /// `self` is what parsing the eight body bytes `b` yields.
    pub open spec fn decodes(&self, b: Seq<u8>) -> bool {
        &&& self.peak_rate == read22(b[0], b[1], b[2])
        &&& self.minimum_overall_smoothing_rate == read22(b[3], b[4], b[5])
        &&& self.maximum_overall_smoothing_buffer == (((b[6] & 0x3F) as u16) << 8u16) | (b[7] as u16)
    }

    /// The body bytes.
    pub open spec fn body_bytes(&self) -> Seq<u8> {
        bytes22(self.peak_rate) + bytes22(self.minimum_overall_smoothing_rate) + seq![
            0xC0 | (((self.maximum_overall_smoothing_buffer >> 8u16) as u8) & 0x3F),
            self.maximum_overall_smoothing_buffer as u8,
        ]
    }

    /// The complete wire encoding.
    pub open spec fn wire(&self) -> Seq<u8> {
        framed(TAG, self.body_bytes())
    }

    /// The rates fit 22 bits and the buffer size 14 bits.
    pub open spec fn wf(&self) -> bool {
        self.peak_rate <= 0x3F_FFFF && self.minimum_overall_smoothing_rate <= 0x3F_FFFF
            && self.maximum_overall_smoothing_buffer <= 0x3FFF
    }

    /// Parses a partial transport stream descriptor from the front of `bytes`.
    pub fn parse(bytes: &[u8]) -> (r: Result<Self, Error>)
        ensures
            r is Ok <==> Self::bytes_ok(bytes@),
            r matches Ok(d) ==> d.decodes(body_of(bytes@)),
            r matches Err(e) ==> Self::bytes_error(e, bytes@),
    {
        let b = descriptor_body(
            bytes,
            TAG,
            "PartialTransportStreamDescriptor",
            "unexpected tag for partial_transport_stream_descriptor",
        )?;
        if b.len() != BODY_LEN as usize {
            return Err(
                Error::InvalidDescriptor { tag: TAG, reason: "partial_transport_stream_descriptor length must equal 8" },
            );
        }
        let peak_rate = (((b[0] & 0x3F) as u32) << 16u32) | ((b[1] as u32) << 8u32) | (b[2] as u32);
        let minimum_overall_smoothing_rate = (((b[3] & 0x3F) as u32) << 16u32) | ((b[4] as u32) << 8u32) | (
        b[5] as u32);
        let maximum_overall_smoothing_buffer = (((b[6] & 0x3F) as u16) << 8u16) | (b[7] as u16);
        Ok(PartialTransportStreamDescriptor { peak_rate, minimum_overall_smoothing_rate, maximum_overall_smoothing_buffer })
    }

    /// Length of the wire encoding.
    pub fn serialized_len(&self) -> (n: usize)
        ensures
            n == self.wire().len(),
    {
        HEADER_LEN + BODY_LEN as usize
    }

    /// The `descriptor_length` byte.
    pub fn descriptor_length(&self) -> (n: u8)
        ensures
            n == self.body_bytes().len(),
    {
        BODY_LEN
    }

    /// Writes the descriptor to the front of `buf`; a field too wide for its
    /// bits is refused before the buffer is looked at.
    pub fn serialize_into(&self, buf: &mut [u8]) -> (r: Result<usize, Error>)
        ensures
            self.wf() ==> emitted(r, old(buf)@, final(buf)@, self.wire()),
            !self.wf() ==> (r matches Err(e) && is_invalid(e, TAG)) && final(buf)@ == old(buf)@,
    {
        if self.peak_rate > MAX_22 || self.minimum_overall_smoothing_rate > MAX_22 {
            return Err(
                Error::InvalidDescriptor { tag: TAG, reason: "peak_rate / minimum_overall_smoothing_rate exceed 22 bits" },
            );
        }
        if self.maximum_overall_smoothing_buffer > MAX_14 {
            return Err(Error::InvalidDescriptor { tag: TAG, reason: "maximum_overall_smoothing_buffer exceeds 14 bits" });
        }
        let mut v: Vec<u8> = Vec::new();
        push_u8(&mut v, TAG);
        push_u8(&mut v, BODY_LEN);
        push_u8(&mut v, 0xC0 | (((self.peak_rate >> 16u32) as u8) & 0x3F));
        push_u8(&mut v, (self.peak_rate >> 8u32) as u8);
        push_u8(&mut v, self.peak_rate as u8);
        push_u8(&mut v, 0xC0 | (((self.minimum_overall_smoothing_rate >> 16u32) as u8) & 0x3F));
        push_u8(&mut v, (self.minimum_overall_smoothing_rate >> 8u32) as u8);
        push_u8(&mut v, self.minimum_overall_smoothing_rate as u8);
        push_u8(&mut v, 0xC0 | (((self.maximum_overall_smoothing_buffer >> 8u16) as u8) & 0x3F));
        push_u8(&mut v, self.maximum_overall_smoothing_buffer as u8);
        assert(v@ =~= self.wire());
        emit(buf, &v)
    }
}

/// Encoding a well-formed partial transport stream descriptor and parsing the bytes gives it back.
pub proof fn lemma_partial_transport_stream_encode_parse(d: PartialTransportStreamDescriptor)
    requires
        d.wf(),
    ensures
        PartialTransportStreamDescriptor::bytes_ok(d.wire()),
        d.decodes(body_of(d.wire())),
{
    lemma_framed_parses(TAG, d.body_bytes());
    lemma_pts_bits(0, 0, 0, d.peak_rate, d.maximum_overall_smoothing_buffer);
    lemma_pts_bits(0, 0, 0, d.minimum_overall_smoothing_rate, 0);
}

/// Parsing a partial transport stream descriptor with its reserved bits set and
/// encoding the result gives back its bytes.
pub proof fn lemma_partial_transport_stream_parse_encode(s: Seq<u8>, d: PartialTransportStreamDescriptor)
    requires
        PartialTransportStreamDescriptor::bytes_ok(s),
        PartialTransportStreamDescriptor::canonical(body_of(s)),
        d.decodes(body_of(s)),
    ensures
        d.wire() == framed_prefix(s),
        d.wf(),
{
    let b = body_of(s);
    lemma_pts_bits(b[0], b[1], b[2], 0, 0);
    lemma_pts_bits(b[3], b[4], b[5], 0, 0);
    lemma_pts_bits(b[6], b[7], 0, 0, 0);
    assert(d.body_bytes() =~= b);
    lemma_reframe(s, TAG);
}

/// A parsed PartialTransportStreamDescriptor is well formed: it encodes again, and parsing that encoding
/// yields it back.
pub proof fn lemma_partial_transport_stream_reparse(s: Seq<u8>, d: PartialTransportStreamDescriptor)
    requires
        PartialTransportStreamDescriptor::bytes_ok(s),
        d.decodes(body_of(s)),
    ensures
        d.wf(),
        PartialTransportStreamDescriptor::bytes_ok(d.wire()),
        d.decodes(body_of(d.wire())),
{
    let b = body_of(s);
    lemma_pts_bits(b[0], b[1], b[2], 0, 0);
    lemma_pts_bits(b[3], b[4], b[5], 0, 0);
    lemma_pts_bits(b[6], b[7], 0, 0, 0);
    lemma_partial_transport_stream_encode_parse(d);
}

/// Parsing, encoding and parsing again gives the same value: whatever parses
/// from the encoding of a parsed PartialTransportStreamDescriptor equals it.
pub proof fn lemma_partial_transport_stream_round_trip(s: Seq<u8>, d: PartialTransportStreamDescriptor, d2: PartialTransportStreamDescriptor)
    requires
        PartialTransportStreamDescriptor::bytes_ok(s),
        d.decodes(body_of(s)),
        d2.decodes(body_of(d.wire())),
    ensures
        d2 == d,
{
    lemma_partial_transport_stream_reparse(s, d);
}

} // verus!
