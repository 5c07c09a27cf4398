//! C2 Bundle Delivery System Descriptor — ETSI EN 300 468 §6.4.6.4 (tag_extension 0x16).

use super::ExtensionBodyDef;
use super::c2_delivery_system::{c2_packed, lemma_c2_packed};
use super::invalid;
use crate::error::{is_invalid, Error};
use crate::wire::{
    be32, bit, concat_map, lemma_be32_of_bytes, lemma_bytes_of_be32, lemma_concat_map_blocks,
    lemma_concat_map_fixed, lemma_concat_map_push, push_u32, push_u8, read_u32, u32_bytes,
};
use crate::descriptors::emitted;
use crate::wire::copy_to_front;
use vstd::prelude::*;

verus! {

impl ExtensionBodyDef for C2BundleDeliverySystem {
    const TAG_EXTENSION: u8 = 0x16;
    const NAME: &'static str = "C2_BUNDLE_DELIVERY_SYSTEM";
}

/// Length of one bundle entry.
pub const C2_BUNDLE_ENTRY_LEN: usize = 8;

/// One C2 bundle entry (Table 139).
#[derive(Debug, Clone, Copy, PartialEq, Eq)]
pub struct C2BundleEntry {
    /// plp_id(8).
    pub plp_id: u8,
    /// data_slice_id(8).
    pub data_slice_id: u8,
    /// C2_System_tuning_frequency(32).
    pub c2_system_tuning_frequency: u32,
    /// C2_System_tuning_frequency_type(2).
    pub c2_system_tuning_frequency_type: u8,
    /// active_OFDM_symbol_duration(3).
    pub active_ofdm_symbol_duration: u8,
    /// guard_interval(3).
    pub guard_interval: u8,
    /// primary_channel(1).
    pub primary_channel: bool,
}

impl C2BundleEntry {
    /// `self` is what parsing the 8 entry bytes `s` yields.
    pub open spec fn decodes(&self, s: Seq<u8>) -> bool {
        &&& s.len() == 8
        &&& self.plp_id == s[0]
        &&& self.data_slice_id == s[1]
        &&& self.c2_system_tuning_frequency == be32(s, 2)
        &&& self.c2_system_tuning_frequency_type == s[6] >> 6u8
        &&& self.active_ofdm_symbol_duration == (s[6] >> 3u8) & 0x07
        &&& self.guard_interval == s[6] & 0x07
        &&& self.primary_channel == (s[7] & 0x80 != 0)
    }

    /// The 8 entry bytes written by serialization.
    pub open spec fn wire(&self) -> Seq<u8> {
        seq![self.plp_id, self.data_slice_id] + u32_bytes(self.c2_system_tuning_frequency) + seq![
            c2_packed(self.c2_system_tuning_frequency_type, self.active_ofdm_symbol_duration, self.guard_interval),
            bit(self.primary_channel) << 7u8,
        ]
    }

    /// The coded fields fit their bit widths.
    pub open spec fn wf(&self) -> bool {
        self.c2_system_tuning_frequency_type < 4 && self.active_ofdm_symbol_duration < 8
            && self.guard_interval < 8
    }

    /// The reserved bits after primary_channel are zero.
    pub open spec fn canonical(s: Seq<u8>) -> bool {
        s[7] & 0x7F == 0
    }

    /// Parses the entry at `sel[p..p+8]`.
    pub fn parse_at(sel: &[u8], p: usize) -> (e: Self)
        requires
            p + 8 <= sel.len(),
        ensures
            e.decodes(sel@.subrange(p as int, p + 8)),
    {
        let packed = sel[p + 6];
        C2BundleEntry {
            plp_id: sel[p],
            data_slice_id: sel[p + 1],
            c2_system_tuning_frequency: read_u32(sel, p + 2),
            c2_system_tuning_frequency_type: packed >> 6u8,
            active_ofdm_symbol_duration: (packed >> 3u8) & 0x07,
            guard_interval: packed & 0x07,
            primary_channel: (sel[p + 7] & 0x80) != 0,
        }
    }

    /// Appends the 8 entry bytes to `out`.
    pub fn write_to(&self, out: &mut Vec<u8>)
        ensures
            final(out)@ == old(out)@ + self.wire(),
    {
        push_u8(out, self.plp_id);
        push_u8(out, self.data_slice_id);
        push_u32(out, self.c2_system_tuning_frequency);
        push_u8(
            out,
            (self.c2_system_tuning_frequency_type << 6u8) | ((self.active_ofdm_symbol_duration & 0x07)
                << 3u8) | (self.guard_interval & 0x07),
        );
        let pc: u8 = if self.primary_channel {
            1
        } else {
            0
        };
        push_u8(out, pc << 7u8);
        assert(out@ =~= old(out)@ + self.wire());
    }
}

/// The encoding of one bundle entry, as a function.
pub open spec fn bundle_entry_wire() -> spec_fn(C2BundleEntry) -> Seq<u8> {
    |e: C2BundleEntry| e.wire()
}

/// Encoding then parsing a well-formed bundle entry gives it back.
pub proof fn lemma_bundle_entry_encode_parse(e: C2BundleEntry)
    requires
        e.wf(),
    ensures
        e.decodes(e.wire()),
{
    let w = e.wire();
    lemma_be32_of_bytes(e.c2_system_tuning_frequency);
    assert(w.subrange(2, 6) =~= u32_bytes(e.c2_system_tuning_frequency));
    lemma_c2_packed(0, e.c2_system_tuning_frequency_type, e.active_ofdm_symbol_duration, e.guard_interval);
}

/// Parsing then encoding canonical bundle entry bytes gives them back.
pub proof fn lemma_bundle_entry_parse_encode(s: Seq<u8>, e: C2BundleEntry)
    requires
        e.decodes(s),
        C2BundleEntry::canonical(s),
    ensures
        e.wire() == s,
        e.wf(),
{
    lemma_bytes_of_be32(s, 2);
    lemma_c2_packed(s[6], 0, 0, 0);
    lemma_c2_packed(s[7], 0, 0, 0);
    assert(e.wire() =~= s);
}

/// C2_bundle_delivery_system body (Table 139): a list of 8-byte entries.
#[derive(Debug, Clone, PartialEq, Eq)]
pub struct C2BundleDeliverySystem {
    /// Entries in wire order.
    pub entries: Vec<C2BundleEntry>,
}

impl C2BundleDeliverySystem {
    /// Parsing succeeds on exactly these selector bytes: whole entries.
    pub open spec fn sel_ok(s: Seq<u8>) -> bool {
        s.len() % 8 == 0
    }

    /// The error reported for selector bytes that do not parse.
    pub open spec fn sel_error(e: Error, s: Seq<u8>) -> bool {
        is_invalid(e, super::TAG)
    }

    /// Every entry's reserved bits are zero.
    pub open spec fn canonical(s: Seq<u8>) -> bool {
        forall|i: int| 0 <= i < s.len() / 8 ==> #[trigger] C2BundleEntry::canonical(s.subrange(8 * i, 8 * i + 8))
    }

    /// `self` is what parsing the selector bytes `s` yields.
    pub open spec fn decodes(&self, s: Seq<u8>) -> bool {
        &&& self.entries@.len() * 8 == s.len()
        &&& forall|i: int| 0 <= i < self.entries@.len() ==> #[trigger] self.entries@[i].decodes(s.subrange(8 * i, 8 * i + 8))
    }

    /// The selector bytes written by `serialize_into`.
    pub open spec fn wire(&self) -> Seq<u8> {
        concat_map(self.entries@, bundle_entry_wire())
    }

    /// Every entry is well formed.
    pub open spec fn wf(&self) -> bool {
        forall|i: int| 0 <= i < self.entries@.len() ==> #[trigger] self.entries@[i].wf()
    }

    proof fn lemma_wire_len(&self)
        ensures
            self.wire().len() == 8 * self.entries@.len(),
    {
        lemma_concat_map_fixed(self.entries@, bundle_entry_wire(), 8);
    }

    /// Parses the entry list.
    pub fn parse(sel: &[u8]) -> (r: Result<Self, Error>)
        ensures
            r is Ok <==> Self::sel_ok(sel@),
            r matches Ok(d) ==> d.decodes(sel@),
            r matches Err(e) ==> Self::sel_error(e, sel@),
    {
        if sel.len() % C2_BUNDLE_ENTRY_LEN != 0 {
            return Err(invalid("C2_bundle_delivery_system: not a whole number of entries"));
        }
        let n = sel.len() / C2_BUNDLE_ENTRY_LEN;
        let mut entries: Vec<C2BundleEntry> = Vec::new();
        let mut i: usize = 0;
        while i < n
            invariant
                n * 8 == sel.len(),
                i <= n,
                entries@.len() == i,
                forall|j: int| 0 <= j < i ==> #[trigger] entries@[j].decodes(sel@.subrange(8 * j, 8 * j + 8)),
            decreases n - i,
        {
            let e = C2BundleEntry::parse_at(sel, i * C2_BUNDLE_ENTRY_LEN);
            entries.push(e);
            i = i + 1;
        }
        Ok(C2BundleDeliverySystem { entries })
    }

    /// Length of the selector bytes.
    pub fn serialized_len(&self) -> (n: usize)
        requires
            self.wire().len() <= usize::MAX,
        ensures
            n == self.wire().len(),
    {
        proof {
            self.lemma_wire_len();
        }
        self.entries.len() * C2_BUNDLE_ENTRY_LEN
    }

    /// Writes the selector bytes to the front of `buf`.
    pub fn serialize_into(&self, buf: &mut [u8]) -> (r: Result<usize, Error>)
        requires
            self.wire().len() <= usize::MAX,
        ensures
            emitted(r, old(buf)@, final(buf)@, self.wire()),
    {
        let len = self.serialized_len();
        if buf.len() < len {
            return Err(Error::OutputBufferTooSmall { need: len, have: buf.len() });
        }
        let mut v: Vec<u8> = Vec::new();
        self.write_to(&mut v);
        copy_to_front(buf, &v);
        Ok(len)
    }

    /// Appends the selector bytes to `out`.
    pub fn write_to(&self, out: &mut Vec<u8>)
        ensures
            final(out)@ == old(out)@ + self.wire(),
    {
        let mut i: usize = 0;
        while i < self.entries.len()
            invariant
                i <= self.entries@.len(),
                out@ == old(out)@ + concat_map(self.entries@.subrange(0, i as int), bundle_entry_wire()),
            decreases self.entries@.len() - i,
        {
            proof {
                lemma_concat_map_push(self.entries@.subrange(0, i as int), self.entries@[i as int], bundle_entry_wire());
                assert(self.entries@.subrange(0, i as int).push(self.entries@[i as int]) =~= self.entries@.subrange(0, i + 1));
            }
            self.entries[i].write_to(out);
            i = i + 1;
            assert(out@ =~= old(out)@ + concat_map(self.entries@.subrange(0, i as int), bundle_entry_wire()));
        }
        assert(self.entries@.subrange(0, i as int) =~= self.entries@);
    }
}

/// Encoding then parsing a well-formed bundle gives it back.
pub proof fn lemma_c2_bundle_encode_parse(d: C2BundleDeliverySystem)
    requires
        d.wf(),
    ensures
        C2BundleDeliverySystem::sel_ok(d.wire()),
        d.decodes(d.wire()),
{
    let es = d.entries@;
    assert forall|i: int| 0 <= i < es.len() implies #[trigger] bundle_entry_wire()(es[i]).len() == 8 by {}
    lemma_concat_map_fixed(es, bundle_entry_wire(), 8);
    assert forall|i: int| 0 <= i < es.len() implies #[trigger] es[i].decodes(d.wire().subrange(8 * i, 8 * i + 8)) by {
        assert(d.wire().subrange(8 * i, 8 * i + 8) == bundle_entry_wire()(es[i]));
        assert(es[i].wf());
        lemma_bundle_entry_encode_parse(es[i]);
    }
}

/// Parsing then encoding canonical bundle bytes gives them back.
pub proof fn lemma_c2_bundle_parse_encode(s: Seq<u8>, d: C2BundleDeliverySystem)
    requires
        C2BundleDeliverySystem::sel_ok(s),
        C2BundleDeliverySystem::canonical(s),
        d.decodes(s),
    ensures
        d.wire() == s,
        d.wf(),
{
    let es = d.entries@;
    assert(s.len() / 8 == es.len());
    assert forall|i: int| 0 <= i < es.len() implies #[trigger] bundle_entry_wire()(es[i]) == s.subrange(8 * i, 8 * i + 8)
        by {
        assert(es[i].decodes(s.subrange(8 * i, 8 * i + 8)));
        assert(C2BundleEntry::canonical(s.subrange(8 * i, 8 * i + 8)));
        lemma_bundle_entry_parse_encode(s.subrange(8 * i, 8 * i + 8), es[i]);
    }
    lemma_concat_map_blocks(es, bundle_entry_wire(), 8, s);
    assert forall|i: int| 0 <= i < es.len() implies #[trigger] es[i].wf() by {
        assert(es[i].decodes(s.subrange(8 * i, 8 * i + 8)));
        assert(C2BundleEntry::canonical(s.subrange(8 * i, 8 * i + 8)));
        lemma_bundle_entry_parse_encode(s.subrange(8 * i, 8 * i + 8), es[i]);
    }
}

/// A parsed C2BundleDeliverySystem is well formed: it encodes again, and parsing that encoding
/// yields it back.
pub proof fn lemma_c2_bundle_reparse(s: Seq<u8>, d: C2BundleDeliverySystem)
    requires
        C2BundleDeliverySystem::sel_ok(s),
        d.decodes(s),
    ensures
        d.wf(),
        C2BundleDeliverySystem::sel_ok(d.wire()),
        d.decodes(d.wire()),
        d.wire().len() <= s.len(),
{
    let es = d.entries@;
    assert forall|i: int| 0 <= i < es.len() implies #[trigger] es[i].wf() by {
        let t = s.subrange(8 * i, 8 * i + 8);
        assert(es[i].decodes(t));
        lemma_c2_packed(t[6], 0, 0, 0);
    }
    d.lemma_wire_len();
    lemma_c2_bundle_encode_parse(d);
}

/// Parsing, encoding and parsing again gives the same value: whatever parses
/// from the encoding of a parsed C2BundleDeliverySystem holds the same entries and equals it
/// otherwise.
pub proof fn lemma_c2_bundle_round_trip(s: Seq<u8>, d: C2BundleDeliverySystem, d2: C2BundleDeliverySystem)
    requires
        C2BundleDeliverySystem::sel_ok(s),
        d.decodes(s),
        d2.decodes(d.wire()),
    ensures
        d2.entries@ == d.entries@,
        d2 == (C2BundleDeliverySystem { entries: d2.entries, ..d }),
{
    lemma_c2_bundle_reparse(s, d);
    let w = d.wire();
    assert forall|i: int| 0 <= i < d.entries@.len() implies d2.entries@[i] == d.entries@[i] by {
        assert(d2.entries@[i].decodes(w.subrange(8 * i, 8 * i + 8)));
        assert(d.entries@[i].decodes(w.subrange(8 * i, 8 * i + 8)));
    }
    assert(d2.entries@ =~= d.entries@);
}

} // verus!
