//! T2 Delivery System Descriptor — ETSI EN 300 468 §6.4.6.3 (tag_extension 0x04).

use super::ExtensionBodyDef;
use super::invalid;
use crate::error::{is_invalid, Error};
use crate::wire::{be16, bit, lemma_be16_of_bytes, lemma_bytes_of_be16, push_bytes, push_u16, push_u8, read_u16, u16_bytes};
use crate::descriptors::emitted_sized;
use crate::wire::copy_to_front;
use vstd::prelude::*;

verus! {

impl ExtensionBodyDef for T2DeliverySystem<'_> {
    const TAG_EXTENSION: u8 = 0x04;
    const NAME: &'static str = "T2_DELIVERY_SYSTEM";
}

/// plp_id(1) + T2_system_id(2).
pub const T2_FIXED_PREFIX_LEN: usize = 3;
/// SISO_MISO..tfs_flag, packed in 2 bytes.
pub const T2_FLAGS_BLOCK_LEN: usize = 2;

/// T2_delivery_system body (Table 133): the fixed level typed, the cell loop raw.
#[derive(Debug, Clone, PartialEq, Eq)]
pub struct T2DeliverySystem<'a> {
    /// plp_id(8).
    pub plp_id: u8,
    /// T2_system_id(16).
    pub t2_system_id: u16,
    /// SISO/MISO(2), present iff the flags block is present.
    pub siso_miso: Option<u8>,
    /// bandwidth(4).
    pub bandwidth: Option<u8>,
    /// guard_interval(3).
    pub guard_interval: Option<u8>,
    /// transmission_mode(3).
    pub transmission_mode: Option<u8>,
    /// other_frequency_flag(1).
    pub other_frequency_flag: Option<bool>,
    /// tfs_flag(1).
    pub tfs_flag: Option<bool>,
    /// Raw cell loop bytes.
    pub cell_loop: &'a [u8],
}

/// First flags byte: SISO/MISO(2) | bandwidth(4) | reserved(2)=0.
pub open spec fn t2_flags0(sm: u8, bw: u8) -> u8 {
    (sm << 6u8) | ((bw & 0x0F) << 2u8)
}

/// Second flags byte: guard_interval(3) | transmission_mode(3) | other_frequency_flag(1) | tfs_flag(1).
pub open spec fn t2_flags1(gi: u8, tm: u8, off: bool, tfs: bool) -> u8 {
    (gi << 5u8) | ((tm & 0x07) << 2u8) | (bit(off) << 1u8) | bit(tfs)
}

proof fn lemma_t2_flags(b0: u8, b1: u8, sm: u8, bw: u8, gi: u8, tm: u8, o: u8, t: u8)
    by (bit_vector)
    requires
        o <= 1,
        t <= 1,
    ensures
        sm < 4 && bw < 16 ==> ((sm << 6u8) | ((bw & 0x0F) << 2u8)) >> 6u8 == sm && (((sm << 6u8) | ((
            bw & 0x0F) << 2u8)) >> 2u8) & 0x0F == bw,
        gi < 8 && tm < 8 ==> ((gi << 5u8) | ((tm & 0x07) << 2u8) | (o << 1u8) | t) >> 5u8 == gi && (((
            gi << 5u8) | ((tm & 0x07) << 2u8) | (o << 1u8) | t) >> 2u8) & 0x07 == tm && (((gi << 5u8)
            | ((tm & 0x07) << 2u8) | (o << 1u8) | t) & 0x02 != 0) == (o == 1) && (((gi << 5u8) | ((tm
            & 0x07) << 2u8) | (o << 1u8) | t) & 0x01 != 0) == (t == 1),
        b0 & 0x03 == 0 ==> ((b0 >> 6u8) << 6u8) | ((((b0 >> 2u8) & 0x0F) & 0x0F) << 2u8) == b0,
        ((b1 >> 5u8) << 5u8) | ((((b1 >> 2u8) & 0x07) & 0x07) << 2u8) | ((if b1 & 0x02 != 0 { 1u8 } else { 0u8 }) << 1u8)
            | (if b1 & 0x01 != 0 { 1u8 } else { 0u8 }) == b1,
        b0 >> 6u8 < 4 && (b0 >> 2u8) & 0x0F < 16 && b1 >> 5u8 < 8 && (b1 >> 2u8) & 0x07 < 8,
{
}

impl<'a> T2DeliverySystem<'a> {
    /// Parsing succeeds on exactly these selector bytes.
    pub open spec fn sel_ok(s: Seq<u8>) -> bool {
        s.len() >= 3 && (s.len() > 3 ==> s.len() >= 5)
    }

    /// The error reported for selector bytes that do not parse.
    pub open spec fn sel_error(e: Error, s: Seq<u8>) -> bool {
        is_invalid(e, super::TAG)
    }

    /// The reserved bits of the flags block are zero.
    pub open spec fn canonical(s: Seq<u8>) -> bool {
        s.len() > 3 ==> s[3] & 0x03 == 0
    }

    /// `self` is what parsing the selector bytes `s` yields.
    pub open spec fn decodes(&self, s: Seq<u8>) -> bool {
        &&& self.plp_id == s[0]
        &&& self.t2_system_id == be16(s, 1)
        &&& if s.len() > 3 {
            &&& self.siso_miso == Some(s[3] >> 6u8)
            &&& self.bandwidth == Some((s[3] >> 2u8) & 0x0F)
            &&& self.guard_interval == Some(s[4] >> 5u8)
            &&& self.transmission_mode == Some((s[4] >> 2u8) & 0x07)
            &&& self.other_frequency_flag == Some(s[4] & 0x02 != 0)
            &&& self.tfs_flag == Some(s[4] & 0x01 != 0)
            &&& self.cell_loop@ == s.subrange(5, s.len() as int)
        } else {
            &&& self.siso_miso is None
            &&& self.bandwidth is None
            &&& self.guard_interval is None
            &&& self.transmission_mode is None
            &&& self.other_frequency_flag is None
            &&& self.tfs_flag is None
            &&& self.cell_loop@ == s.subrange(3, s.len() as int)
        }
    }

    /// Every field of the flags block is present.
    pub open spec fn has_flags(&self) -> bool {
        &&& self.siso_miso is Some
        &&& self.bandwidth is Some
        &&& self.guard_interval is Some
        &&& self.transmission_mode is Some
        &&& self.other_frequency_flag is Some
        &&& self.tfs_flag is Some
    }

    /// The flags block, written when all its fields are present.
    pub open spec fn flags_wire(&self) -> Seq<u8> {
        if self.has_flags() {
            seq![
                t2_flags0(self.siso_miso.unwrap(), self.bandwidth.unwrap()),
                t2_flags1(
                    self.guard_interval.unwrap(),
                    self.transmission_mode.unwrap(),
                    self.other_frequency_flag.unwrap(),
                    self.tfs_flag.unwrap(),
                ),
            ]
        } else {
            Seq::empty()
        }
    }

    /// The length serialization reports: the flags block counts when `siso_miso`
    /// is present.
    pub open spec fn sized_len(&self) -> int {
        3 + (if self.siso_miso is Some {
            2int
        } else {
            0int
        }) + self.cell_loop@.len()
    }

    /// The selector bytes written by `serialize_into`.
    pub open spec fn wire(&self) -> Seq<u8> {
        seq![self.plp_id] + u16_bytes(self.t2_system_id) + self.flags_wire() + self.cell_loop@
    }

    /// The flags block is wholly present or wholly absent, its fields fit, and a
    /// present block is followed by... any cell loop; an absent block has no cell loop.
    pub open spec fn wf(&self) -> bool {
        match self.siso_miso {
            Some(sm) => {
                &&& sm < 4
                &&& self.bandwidth matches Some(bw) && bw < 16
                &&& self.guard_interval matches Some(gi) && gi < 8
                &&& self.transmission_mode matches Some(tm) && tm < 8
                &&& self.other_frequency_flag is Some
                &&& self.tfs_flag is Some
            },
            None => {
                &&& self.bandwidth is None
                &&& self.guard_interval is None
                &&& self.transmission_mode is None
                &&& self.other_frequency_flag is None
                &&& self.tfs_flag is None
                &&& self.cell_loop@.len() == 0
            },
        }
    }

    /// Parses the T2_delivery_system body.
    pub fn parse(sel: &'a [u8]) -> (r: Result<Self, Error>)
        ensures
            r is Ok <==> Self::sel_ok(sel@),
            r matches Ok(d) ==> d.decodes(sel@),
            r matches Err(e) ==> Self::sel_error(e, sel@),
    {
        if sel.len() < T2_FIXED_PREFIX_LEN {
            return Err(invalid("T2_delivery_system: prefix truncated"));
        }
        let plp_id = sel[0];
        let t2_system_id = read_u16(sel, 1);
        if sel.len() > T2_FIXED_PREFIX_LEN {
            if sel.len() < T2_FIXED_PREFIX_LEN + T2_FLAGS_BLOCK_LEN {
                return Err(invalid("T2_delivery_system: flags block truncated"));
            }
            let b0 = sel[3];
            let b1 = sel[4];
            Ok(T2DeliverySystem {
                plp_id,
                t2_system_id,
                siso_miso: Some(b0 >> 6u8),
                bandwidth: Some((b0 >> 2u8) & 0x0F),
                guard_interval: Some(b1 >> 5u8),
                transmission_mode: Some((b1 >> 2u8) & 0x07),
                other_frequency_flag: Some((b1 & 0x02) != 0),
                tfs_flag: Some((b1 & 0x01) != 0),
                cell_loop: &sel[5..sel.len()],
            })
        } else {
            Ok(T2DeliverySystem {
                plp_id,
                t2_system_id,
                siso_miso: None,
                bandwidth: None,
                guard_interval: None,
                transmission_mode: None,
                other_frequency_flag: None,
                tfs_flag: None,
                cell_loop: &sel[3..sel.len()],
            })
        }
    }

    /// Length of the selector bytes, counting the flags block when `siso_miso`
    /// is present.
    pub fn serialized_len(&self) -> (n: usize)
        requires
            self.sized_len() <= usize::MAX,
        ensures
            n == self.sized_len(),
    {
        let flags: usize = if self.siso_miso.is_some() {
            T2_FLAGS_BLOCK_LEN
        } else {
            0
        };
        T2_FIXED_PREFIX_LEN + flags + self.cell_loop.len()
    }

    /// Appends the selector bytes to `out`.
    pub fn write_to(&self, out: &mut Vec<u8>)
        ensures
            final(out)@ == old(out)@ + self.wire(),
    {
        push_u8(out, self.plp_id);
        push_u16(out, self.t2_system_id);
        match (
            self.siso_miso,
            self.bandwidth,
            self.guard_interval,
            self.transmission_mode,
            self.other_frequency_flag,
            self.tfs_flag,
        ) {
            (Some(sm), Some(bw), Some(gi), Some(tm), Some(o), Some(f)) => {
                let off: u8 = if o {
                    1
                } else {
                    0
                };
                let tfs: u8 = if f {
                    1
                } else {
                    0
                };
                push_u8(out, (sm << 6u8) | ((bw & 0x0F) << 2u8));
                push_u8(out, (gi << 5u8) | ((tm & 0x07) << 2u8) | (off << 1u8) | tfs);
            },
            _ => {},
        }
        push_bytes(out, self.cell_loop);
        assert(out@ =~= old(out)@ + self.wire());
    }

    /// Writes the selector bytes to the front of `buf` and returns the sized
    /// length; a flags block with a field missing is counted but not written.
    pub fn serialize_into(&self, buf: &mut [u8]) -> (r: Result<usize, Error>)
        requires
            self.sized_len() <= usize::MAX,
        ensures
            emitted_sized(r, old(buf)@, final(buf)@, self.wire(), self.sized_len()),
    {
        let len = self.serialized_len();
        if buf.len() < len {
            return Err(Error::OutputBufferTooSmall { need: len, have: buf.len() });
        }
        let mut v: Vec<u8> = Vec::new();
        self.write_to(&mut v);
        copy_to_front(buf, &v);
        Ok(len)
    }
}

/// Encoding then parsing a well-formed T2_delivery_system body gives it back.
pub proof fn lemma_t2_delivery_system_encode_parse(d: T2DeliverySystem)
    requires
        d.wf(),
    ensures
        T2DeliverySystem::sel_ok(d.wire()),
        d.decodes(d.wire()),
{
    let w = d.wire();
    lemma_be16_of_bytes(d.t2_system_id);
    assert(w.subrange(1, 3) =~= u16_bytes(d.t2_system_id));
    match d.siso_miso {
        Some(sm) => {
            lemma_t2_flags(
                0,
                0,
                sm,
                d.bandwidth.unwrap(),
                d.guard_interval.unwrap(),
                d.transmission_mode.unwrap(),
                bit(d.other_frequency_flag.unwrap()),
                bit(d.tfs_flag.unwrap()),
            );
            assert(w.subrange(5, w.len() as int) =~= d.cell_loop@);
        },
        None => {
            assert(w.subrange(3, w.len() as int) =~= d.cell_loop@);
        },
    }
}

/// Parsing then encoding canonical T2_delivery_system bytes gives them back.
pub proof fn lemma_t2_delivery_system_parse_encode(s: Seq<u8>, d: T2DeliverySystem)
    requires
        T2DeliverySystem::sel_ok(s),
        T2DeliverySystem::canonical(s),
        d.decodes(s),
    ensures
        d.wire() == s,
        d.wf(),
{
    lemma_bytes_of_be16(s, 1);
    if s.len() > 3 {
        lemma_t2_flags(s[3], s[4], 0, 0, 0, 0, 0, 0);
    }
    assert(d.wire() =~= s);
}

/// A parsed T2DeliverySystem is well formed: it encodes again, and parsing that encoding
/// yields it back.
pub proof fn lemma_t2_delivery_system_reparse(s: Seq<u8>, d: T2DeliverySystem)
    requires
        T2DeliverySystem::sel_ok(s),
        d.decodes(s),
    ensures
        d.wf(),
        T2DeliverySystem::sel_ok(d.wire()),
        d.decodes(d.wire()),
        d.wire().len() <= s.len(),
{
    lemma_bytes_of_be16(s, 1);
    if s.len() > 3 {
        lemma_t2_flags(s[3], s[4], 0, 0, 0, 0, 0, 0);
    }
    lemma_t2_delivery_system_encode_parse(d);
}

/// Parsing, encoding and parsing again gives the same value: whatever parses
/// from the encoding of a parsed T2DeliverySystem equals it.
pub proof fn lemma_t2_delivery_system_round_trip(s: Seq<u8>, d: T2DeliverySystem, d2: T2DeliverySystem)
    requires
        T2DeliverySystem::sel_ok(s),
        d.decodes(s),
        d2.decodes(d.wire()),
    ensures
        d2 == d,
{
    lemma_t2_delivery_system_reparse(s, d);
    assert(d2.cell_loop =~= d.cell_loop);
}

} // verus!
