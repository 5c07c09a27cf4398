//! Service Relocated Descriptor — ETSI EN 300 468 §6.4.10 (tag_extension 0x0B).

use super::ExtensionBodyDef;
use super::invalid;
use crate::error::{is_invalid, Error};
use crate::wire::{be16, lemma_be16_of_bytes, lemma_bytes_of_be16, push_u16, read_u16, u16_bytes};
use crate::descriptors::emitted;
use crate::wire::copy_to_front;
use vstd::prelude::*;

verus! {

impl ExtensionBodyDef for ServiceRelocated {
    const TAG_EXTENSION: u8 = 0x0B;
    const NAME: &'static str = "SERVICE_RELOCATED";
}

/// Length of the service_relocated body.
pub const SERVICE_RELOCATED_LEN: usize = 6;

/// service_relocated body (Table 152) — fixed 6 bytes.
#[derive(Debug, Clone, Copy, PartialEq, Eq)]
pub struct ServiceRelocated {
    /// old_original_network_id(16).
    pub old_original_network_id: u16,
    /// old_transport_stream_id(16).
    pub old_transport_stream_id: u16,
    /// old_service_id(16).
    pub old_service_id: u16,
}

impl ServiceRelocated {
    /// Parsing succeeds on exactly these selector bytes.
    pub open spec fn sel_ok(s: Seq<u8>) -> bool {
        s.len() >= 6
    }

    /// The error reported for selector bytes that do not parse.
    pub open spec fn sel_error(e: Error, s: Seq<u8>) -> bool {
        is_invalid(e, super::TAG)
    }

    /// The selector bytes are exactly what `serialize_into` writes for their parse.
    pub open spec fn canonical(s: Seq<u8>) -> bool {
        s.len() == 6
    }

    /// `self` is what parsing the selector bytes `s` yields.
    pub open spec fn decodes(&self, s: Seq<u8>) -> bool {
        &&& self.old_original_network_id == be16(s, 0)
        &&& self.old_transport_stream_id == be16(s, 2)
        &&& self.old_service_id == be16(s, 4)
    }

    /// The selector bytes written by `serialize_into`.
    pub open spec fn wire(&self) -> Seq<u8> {
        u16_bytes(self.old_original_network_id) + u16_bytes(self.old_transport_stream_id)
            + u16_bytes(self.old_service_id)
    }

    /// Parses the 6-byte body.
    pub fn parse(sel: &[u8]) -> (r: Result<Self, Error>)
        ensures
            r is Ok <==> Self::sel_ok(sel@),
            r matches Ok(d) ==> d.decodes(sel@),
            r matches Err(e) ==> Self::sel_error(e, sel@),
    {
        if sel.len() < SERVICE_RELOCATED_LEN {
            return Err(invalid("service_relocated: truncated"));
        }
        Ok(ServiceRelocated {
            old_original_network_id: read_u16(sel, 0),
            old_transport_stream_id: read_u16(sel, 2),
            old_service_id: read_u16(sel, 4),
        })
    }

    /// Length of the selector bytes.
    pub fn serialized_len(&self) -> (n: usize)
        ensures
            n == self.wire().len(),
    {
        SERVICE_RELOCATED_LEN
    }

    /// Writes the selector bytes to the front of `buf`.
    pub fn serialize_into(&self, buf: &mut [u8]) -> (r: Result<usize, Error>)
        requires
            self.wire().len() <= usize::MAX,
        ensures
            emitted(r, old(buf)@, final(buf)@, self.wire()),
    {
        let len = self.serialized_len();
        if buf.len() < len {
            return Err(Error::OutputBufferTooSmall { need: len, have: buf.len() });
        }
        let mut v: Vec<u8> = Vec::new();
        self.write_to(&mut v);
        copy_to_front(buf, &v);
        Ok(len)
    }

    /// Appends the selector bytes to `out`.
    pub fn write_to(&self, out: &mut Vec<u8>)
        ensures
            final(out)@ == old(out)@ + self.wire(),
    {
        push_u16(out, self.old_original_network_id);
        push_u16(out, self.old_transport_stream_id);
        push_u16(out, self.old_service_id);
        assert(out@ =~= old(out)@ + self.wire());
    }
}

/// Encoding then parsing a service_relocated body gives it back.
pub proof fn lemma_service_relocated_encode_parse(d: ServiceRelocated)
    ensures
        ServiceRelocated::sel_ok(d.wire()),
        d.decodes(d.wire()),
{
    let w = d.wire();
    lemma_be16_of_bytes(d.old_original_network_id);
    lemma_be16_of_bytes(d.old_transport_stream_id);
    lemma_be16_of_bytes(d.old_service_id);
    assert(w.subrange(0, 2) =~= u16_bytes(d.old_original_network_id));
    assert(w.subrange(2, 4) =~= u16_bytes(d.old_transport_stream_id));
    assert(w.subrange(4, 6) =~= u16_bytes(d.old_service_id));
}

/// Parsing then encoding a service_relocated body gives back its bytes.
pub proof fn lemma_service_relocated_parse_encode(s: Seq<u8>, d: ServiceRelocated)
    requires
        ServiceRelocated::sel_ok(s),
        ServiceRelocated::canonical(s),
        d.decodes(s),
    ensures
        d.wire() == s,
{
    lemma_bytes_of_be16(s, 0);
    lemma_bytes_of_be16(s, 2);
    lemma_bytes_of_be16(s, 4);
    assert(d.wire() =~= s);
}

} // verus!
