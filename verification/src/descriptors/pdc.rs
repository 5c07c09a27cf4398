//! PDC Descriptor — ETSI EN 300 468 §6.2.30 (tag 0x69).
//!
//! Programme Delivery Control. Carried inside EIT. Fixed 3-byte body:
//! `reserved_future_use` (4 bits) + `programme_identification_label` (20 bits).
//! The PIL encodes a "day month hour minute" stamp used by VCRs to trigger
//! recording independent of schedule slippage.

use super::{body_of, descriptor_body, emitted, framed, framed_prefix, header_error, header_ok, lemma_framed_parses, lemma_reframe};
use crate::error::{is_invalid, is_out_of_range, Error};
use crate::wire::copy_to_front;
use vstd::prelude::*;

verus! {

/// Descriptor tag for PDC_descriptor.
pub const TAG: u8 = 0x69;

/// Length of the header (tag byte + length byte).
pub const HEADER_LEN: usize = 2;

/// Fixed body length: 4 reserved bits + 20-bit PIL = 24 bits = 3 bytes.
pub const BODY_LEN: usize = 3;

/// The programme_identification_label occupies the low 20 bits.
pub const PIL_MASK: u32 = 0x000F_FFFF;

/// Reserved bits occupy the top 4 of the 24-bit body. Ignored on parse,
/// emitted as 1s on serialize.
pub const RESERVED_BITS: u32 = 0x00F0_0000;

/// PDC Descriptor.
#[derive(Debug, Clone, Copy, PartialEq, Eq)]
pub struct PdcDescriptor {
    /// 20-bit programme_identification_label (day/month/hour/minute packed).
    pub programme_identification_label: u32,
}

/// The label packing `day`, `month`, `hour` and `minute`.
pub open spec fn pil_of(day: u8, month: u8, hour: u8, minute: u8) -> int {
    day * 32768 + month * 2048 + hour * 64 + minute
}

impl PdcDescriptor {
    /// Day-of-month component of the label (5 bits `[19:15]`).
    pub fn pil_day(&self) -> (d: u8)
        ensures
            d == (self.programme_identification_label / 32768) % 32,
    {
        ((self.programme_identification_label / 32768) % 32) as u8
    }

    /// Month component (4 bits `[14:11]`).
    pub fn pil_month(&self) -> (m: u8)
        ensures
            m == (self.programme_identification_label / 2048) % 16,
    {
        ((self.programme_identification_label / 2048) % 16) as u8
    }

    /// Hour component (5 bits `[10:6]`).
    pub fn pil_hour(&self) -> (h: u8)
        ensures
            h == (self.programme_identification_label / 64) % 32,
    {
        ((self.programme_identification_label / 64) % 32) as u8
    }

    /// Minute component (6 bits `[5:0]`).
    pub fn pil_minute(&self) -> (m: u8)
        ensures
            m == self.programme_identification_label % 64,
    {
        (self.programme_identification_label % 64) as u8
    }

    /// Sets the label from its day/month/hour/minute components;
    /// `ValueOutOfRange` (leaving `self` unchanged) if a component exceeds its
    /// bit field (`day` ≤ 31, `month` ≤ 15, `hour` ≤ 31, `minute` ≤ 63).
    pub fn set_pil(&mut self, day: u8, month: u8, hour: u8, minute: u8) -> (r: Result<(), Error>)
        ensures
            r is Ok <==> (day <= 31 && month <= 15 && hour <= 31 && minute <= 63),
            r is Ok ==> final(self).programme_identification_label == pil_of(day, month, hour, minute),
            r matches Err(e) ==> is_out_of_range(e) && *final(self) == *old(self),
    {
        if day > 0x1F || month > 0x0F || hour > 0x1F || minute > 0x3F {
            return Err(
                Error::ValueOutOfRange {
                    field: "PdcDescriptor::programme_identification_label",
                    reason: "a day/month/hour/minute component exceeds its bit field",
                },
            );
        }
        self.programme_identification_label = day as u32 * 32768 + month as u32 * 2048 + hour as u32 * 64
            + minute as u32;
        Ok(())
    }

    /// Parsing succeeds on exactly these bytes.
    pub open spec fn bytes_ok(s: Seq<u8>) -> bool {
        header_ok(s, TAG) && s[1] == 3
    }

    /// The error reported for bytes that do not parse.
    pub open spec fn bytes_error(e: Error, s: Seq<u8>) -> bool {
        if header_ok(s, TAG) {
            is_invalid(e, TAG)
        } else {
            header_error(e, s, TAG)
        }
    }

    /// `self` is what parsing the body `b` yields (the reserved nibble is ignored).
    pub open spec fn decodes(&self, b: Seq<u8>) -> bool {
        self.programme_identification_label == (b[0] % 16) * 65536 + b[1] * 256 + b[2]
    }

    /// The body bytes: the reserved nibble set over the low 20 bits of the label.
    pub open spec fn body_bytes(&self) -> Seq<u8> {
        let p = self.programme_identification_label % 0x100000;
        seq![(0xF0 + p / 65536) as u8, ((p / 256) % 256) as u8, (p % 256) as u8]
    }

    /// The complete wire encoding.
    pub open spec fn wire(&self) -> Seq<u8> {
        framed(TAG, self.body_bytes())
    }

    /// The label fits its 20 bits.
    pub open spec fn wf(&self) -> bool {
        self.programme_identification_label <= PIL_MASK
    }

    /// The reserved nibble of `s` is all ones.
    pub open spec fn canonical(s: Seq<u8>) -> bool {
        s[2] >= 0xF0
    }

    /// Parses a PDC descriptor from the front of `bytes`.
    pub fn parse(bytes: &[u8]) -> (r: Result<Self, Error>)
        ensures
            r is Ok <==> Self::bytes_ok(bytes@),
            r matches Ok(d) ==> d.decodes(body_of(bytes@)),
            r matches Err(e) ==> Self::bytes_error(e, bytes@),
    {
        let body = descriptor_body(bytes, TAG, "PdcDescriptor", "unexpected tag for PDC_descriptor")?;
        if body.len() != BODY_LEN {
            return Err(Error::InvalidDescriptor { tag: TAG, reason: "PDC_descriptor length must be exactly 3" });
        }
        let pil = (body[0] % 16) as u32 * 65536 + body[1] as u32 * 256 + body[2] as u32;
        Ok(PdcDescriptor { programme_identification_label: pil })
    }

    /// Length of the wire encoding.
    pub fn serialized_len(&self) -> (n: usize)
        ensures
            n == self.wire().len(),
    {
        HEADER_LEN + BODY_LEN
    }

    /// Writes the descriptor to the front of `buf`; a label over 20 bits is
    /// refused before the buffer is looked at.
    pub fn serialize_into(&self, buf: &mut [u8]) -> (r: Result<usize, Error>)
        ensures
            self.wf() ==> emitted(r, old(buf)@, final(buf)@, self.wire()),
            !self.wf() ==> (r matches Err(e) && is_invalid(e, TAG)) && final(buf)@ == old(buf)@,
    {
        if self.programme_identification_label > PIL_MASK {
            return Err(Error::InvalidDescriptor { tag: TAG, reason: "programme_identification_label exceeds 20 bits" });
        }
        let len = self.serialized_len();
        if buf.len() < len {
            return Err(Error::OutputBufferTooSmall { need: len, have: buf.len() });
        }
        let p = self.programme_identification_label;
        let mut v: Vec<u8> = Vec::new();
        v.push(TAG);
        v.push(BODY_LEN as u8);
        v.push((0xF0 + p / 65536) as u8);
        v.push(((p / 256) % 256) as u8);
        v.push((p % 256) as u8);
        assert(v@ =~= self.wire());
        copy_to_front(buf, &v);
        Ok(len)
    }
}

/// Setting the label from its components and reading them back gives the
/// components.
pub proof fn lemma_pdc_set_get(day: u8, month: u8, hour: u8, minute: u8)
    requires
        day <= 31,
        month <= 15,
        hour <= 31,
        minute <= 63,
    ensures
        ({
            let p = pil_of(day, month, hour, minute);
            &&& p <= PIL_MASK
            &&& (p / 32768) % 32 == day
            &&& (p / 2048) % 16 == month
            &&& (p / 64) % 32 == hour
            &&& p % 64 == minute
        }),
{
    let p = pil_of(day, month, hour, minute);
    assert(p / 32768 == day);
    assert(p / 2048 == day * 16 + month);
    assert(p / 64 == day * 512 + month * 32 + hour);
}

/// Encoding a well-formed PDC descriptor and parsing the bytes gives it back.
pub proof fn lemma_pdc_encode_parse(d: PdcDescriptor)
    requires
        d.wf(),
    ensures
        PdcDescriptor::bytes_ok(d.wire()),
        d.decodes(body_of(d.wire())),
        PdcDescriptor::canonical(d.wire()),
{
    lemma_framed_parses(TAG, d.body_bytes());
}

/// Parsing a PDC descriptor whose reserved nibble is all ones and encoding the
/// result gives back its bytes.
pub proof fn lemma_pdc_parse_encode(s: Seq<u8>, d: PdcDescriptor)
    requires
        PdcDescriptor::bytes_ok(s),
        PdcDescriptor::canonical(s),
        d.decodes(body_of(s)),
    ensures
        d.wire() == framed_prefix(s),
        d.wf(),
{
    lemma_reframe(s, TAG);
    assert(d.body_bytes() =~= body_of(s));
}

/// A parsed PdcDescriptor is well formed: it encodes again, and parsing that encoding
/// yields it back.
pub proof fn lemma_pdc_reparse(s: Seq<u8>, d: PdcDescriptor)
    requires
        PdcDescriptor::bytes_ok(s),
        d.decodes(body_of(s)),
    ensures
        d.wf(),
        PdcDescriptor::bytes_ok(d.wire()),
        d.decodes(body_of(d.wire())),
{
    lemma_pdc_encode_parse(d);
}

/// Parsing, encoding and parsing again gives the same value: whatever parses
/// from the encoding of a parsed PdcDescriptor equals it.
pub proof fn lemma_pdc_round_trip(s: Seq<u8>, d: PdcDescriptor, d2: PdcDescriptor)
    requires
        PdcDescriptor::bytes_ok(s),
        d.decodes(body_of(s)),
        d2.decodes(body_of(d.wire())),
    ensures
        d2 == d,
{
    lemma_pdc_reparse(s, d);
}

} // verus!
