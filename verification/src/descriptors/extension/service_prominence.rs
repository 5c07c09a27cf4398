//! Service Prominence Descriptor — ETSI EN 300 468 §6.4.18 (tag_extension 0x22).

use super::ExtensionBodyDef;
use super::invalid;
use crate::error::{is_invalid, Error};
use crate::runs::{
    lemma_run_of_encoded, lemma_run_push, lemma_run_reencodes, lemma_run_relength, lemma_run_step, len_stable, run_all,
    run_decodes, run_ok,
};
use crate::wire::{
    be16, bit, concat_map, copy_to_front_masked, lemma_be16_of_bytes, lemma_bytes_of_be16,
    lemma_concat_map_prefix_len, lemma_concat_map_push, lemma_concat_map_same_len, push_bytes, push_u16, push_u8,
    push_zeros, read_u16, u16_bytes, zeros,
};
use crate::descriptors::emitted_kept;
use vstd::prelude::*;

verus! {

impl ExtensionBodyDef for ServiceProminence<'_> {
    const TAG_EXTENSION: u8 = 0x22;
    const NAME: &'static str = "SERVICE_PROMINENCE";
}

/// service_prominence body (Table 162c).
#[derive(Debug, Clone, PartialEq, Eq)]
pub struct ServiceProminence<'a> {
    /// SOGI entries in wire order.
    pub sogi_list: Vec<SogiEntry<'a>>,
    /// Trailing private_data_byte run.
    pub private_data: &'a [u8],
}

/// One SOGI (service-of-general-interest) entry.
#[derive(Debug, Clone, PartialEq, Eq)]
pub struct SogiEntry<'a> {
    /// SOGI_flag(1).
    pub sogi_flag: bool,
    /// target_region_flag(1).
    pub target_region_flag: bool,
    /// service_flag(1).
    pub service_flag: bool,
    /// SOGI_priority(12).
    pub sogi_priority: u16,
    /// service_id(16), present iff `service_flag`.
    pub service_id: Option<u16>,
    /// Raw target_region loop bytes, present iff `target_region_flag`.
    pub target_region_loop: Option<&'a [u8]>,
}

/// Size of the SOGI entry at the front of `t`.
pub open spec fn sogi_entry_len(t: Seq<u8>) -> int {
    if t.len() < 2 {
        2
    } else {
        let f = t[0];
        let q = 2 + (if (f >> 5u8) & 0x01 != 0 { 2int } else { 0int });
        if (f >> 6u8) & 0x01 != 0 {
            if t.len() < q + 1 {
                q + 1
            } else {
                q + 1 + t[q]
            }
        } else {
            q
        }
    }
}

pub open spec fn sogi_len_fn() -> spec_fn(Seq<u8>) -> int {
    |t: Seq<u8>| sogi_entry_len(t)
}

pub open spec fn sogi_dec_fn<'a>() -> spec_fn(SogiEntry<'a>, Seq<u8>) -> bool {
    |e: SogiEntry<'a>, t: Seq<u8>| t.len() >= 2 && sogi_entry_len(t) == t.len() && e.decodes(t)
}

pub open spec fn sogi_enc_fn<'a>() -> spec_fn(SogiEntry<'a>) -> Seq<u8> {
    |e: SogiEntry<'a>| e.wire()
}

pub open spec fn sogi_keep_fn<'a>() -> spec_fn(SogiEntry<'a>) -> Seq<u8> {
    |e: SogiEntry<'a>| e.keep_mask()
}

pub open spec fn sogi_canon_fn() -> spec_fn(Seq<u8>) -> bool {
    |t: Seq<u8>| t[0] & 0x10 != 0
}

pub open spec fn sogi_good_fn<'a>() -> spec_fn(SogiEntry<'a>) -> bool {
    |e: SogiEntry<'a>| e.wf()
}

pub proof fn lemma_sogi_len_stable()
    ensures
        len_stable(sogi_len_fn()),
{
    assert forall|a: Seq<u8>, b: Seq<u8>|
        0 < sogi_len_fn()(a) <= a.len() implies #[trigger] sogi_len_fn()(a + b) == sogi_len_fn()(a) by {
        assert((a + b)[0] == a[0]);
        assert((a + b)[1] == a[1]);
        let q = 2 + (if (a[0] >> 5u8) & 0x01 != 0 { 2int } else { 0int });
        if (a[0] >> 6u8) & 0x01 != 0 && a.len() >= q + 1 {
            assert((a + b)[q] == a[q]);
        }
    }
}

proof fn lemma_sogi_bits(b0: u8, b1: u8, s: u8, t: u8, v: u8, p: u16)
    by (bit_vector)
    requires
        s <= 1,
        t <= 1,
        v <= 1,
    ensures
        p < 4096 ==> ((((s << 7u8) | (t << 6u8) | (v << 5u8) | 0x10 | (((p >> 8u16) as u8) & 0x0F)) >> 7u8)
            != 0) == (s == 1) && ((((s << 7u8) | (t << 6u8) | (v << 5u8) | 0x10 | (((p >> 8u16) as u8)
            & 0x0F)) >> 6u8) & 0x01 != 0) == (t == 1) && ((((s << 7u8) | (t << 6u8) | (v << 5u8) | 0x10
            | (((p >> 8u16) as u8) & 0x0F)) >> 5u8) & 0x01 != 0) == (v == 1) && (((((((s << 7u8) | (t
            << 6u8) | (v << 5u8) | 0x10 | (((p >> 8u16) as u8) & 0x0F)) as u16) & 0x0F) << 8u16) | ((p
            as u8) as u16)) == p),
        b0 & 0x10 != 0 ==> ((if (b0 >> 7u8) != 0 { 1u8 } else { 0u8 }) << 7u8) | ((if (b0 >> 6u8) & 0x01
            != 0 { 1u8 } else { 0u8 }) << 6u8) | ((if (b0 >> 5u8) & 0x01 != 0 { 1u8 } else { 0u8 })
            << 5u8) | 0x10 | ((((((b0 as u16) & 0x0F) << 8u16) | (b1 as u16)) >> 8u16) as u8 & 0x0F)
            == b0 && (((((b0 as u16) & 0x0F) << 8u16) | (b1 as u16)) as u8) == b1,
        ((((b0 as u16) & 0x0F) << 8u16) | (b1 as u16)) < 4096,
{
}

impl<'a> SogiEntry<'a> {
    /// Offset after the fixed bytes and the optional service_id in `t`.
    pub open spec fn region_start(t: Seq<u8>) -> int {
        2 + (if (t[0] >> 5u8) & 0x01 != 0 { 2int } else { 0int })
    }

    /// `self` is what parsing the entry bytes `t` yields.
    pub open spec fn decodes(&self, t: Seq<u8>) -> bool {
        let q = Self::region_start(t);
        &&& self.sogi_flag == ((t[0] >> 7u8) != 0)
        &&& self.target_region_flag == ((t[0] >> 6u8) & 0x01 != 0)
        &&& self.service_flag == ((t[0] >> 5u8) & 0x01 != 0)
        &&& self.sogi_priority == (((t[0] as u16) & 0x0F) << 8u16) | (t[1] as u16)
        &&& if (t[0] >> 5u8) & 0x01 != 0 {
            self.service_id == Some(be16(t, 2) as u16)
        } else {
            self.service_id is None
        }
        &&& if (t[0] >> 6u8) & 0x01 != 0 {
            self.target_region_loop matches Some(r) && r@ == t.subrange(q + 1, t.len() as int)
        } else {
            self.target_region_loop is None
        }
    }

    /// The first entry byte.
    pub open spec fn byte0(&self) -> u8 {
        (bit(self.sogi_flag) << 7u8) | (bit(self.target_region_flag) << 6u8) | (bit(self.service_flag) << 5u8)
            | 0x10 | (((self.sogi_priority >> 8u16) as u8) & 0x0F)
    }

    /// The region loop written for this entry.
    pub open spec fn region_bytes(&self) -> Seq<u8> {
        match self.target_region_loop {
            Some(r) => r@,
            None => Seq::empty(),
        }
    }

    /// The entry bytes serialization lays out; a missing service_id lays out as
    /// two zero bytes, which [`SogiEntry::keep_mask`] marks as left as they were.
    pub open spec fn wire(&self) -> Seq<u8> {
        seq![self.byte0(), self.sogi_priority as u8] + (if self.service_flag {
            u16_bytes(self.service_id.unwrap_or(0))
        } else {
            Seq::empty()
        }) + (if self.target_region_flag {
            seq![(self.region_bytes().len() % 256) as u8] + self.region_bytes()
        } else {
            Seq::empty()
        })
    }

    /// The priority fits 12 bits and the optional parts match their flags.
    pub open spec fn wf(&self) -> bool {
        &&& self.sogi_priority < 4096
        &&& (self.service_id is Some) == self.service_flag
        &&& (self.target_region_loop is Some) == self.target_region_flag
        &&& self.region_bytes().len() <= 255
    }

    /// Parses the entry at `sel[p..]`, which holds it completely.
    pub fn parse_at(sel: &'a [u8], p: usize) -> (e: Self)
        requires
            p + 2 <= sel.len(),
            p + sogi_entry_len(sel@.subrange(p as int, sel@.len() as int)) <= sel.len(),
        ensures
            e.decodes(sel@.subrange(p as int, p + sogi_entry_len(sel@.subrange(p as int, sel@.len() as int)))),
    {
        let ghost t = sel@.subrange(p as int, p + sogi_entry_len(sel@.subrange(p as int, sel@.len() as int)));
        let byte0 = sel[p];
        let byte1 = sel[p + 1];
        let sogi_flag = (byte0 >> 7u8) != 0;
        let target_region_flag = ((byte0 >> 6u8) & 0x01) != 0;
        let service_flag = ((byte0 >> 5u8) & 0x01) != 0;
        let sogi_priority = (((byte0 as u16) & 0x0F) << 8u16) | (byte1 as u16);
        let mut k = p + 2;
        let service_id = if service_flag {
            let id = read_u16(sel, k);
            k = k + 2;
            Some(id)
        } else {
            None
        };
        let target_region_loop = if target_region_flag {
            let region_len = sel[k] as usize;
            let r = &sel[k + 1..k + 1 + region_len];
            assert(r@ =~= t.subrange(k + 1 - p, t.len() as int));
            Some(r)
        } else {
            None
        };
        SogiEntry { sogi_flag, target_region_flag, service_flag, sogi_priority, service_id, target_region_loop }
    }

    /// Appends the entry bytes to `out`.
    pub fn write_to(&self, out: &mut Vec<u8>)
        ensures
            final(out)@ == old(out)@ + self.wire(),
    {
        let s: u8 = if self.sogi_flag {
            1
        } else {
            0
        };
        let t: u8 = if self.target_region_flag {
            1
        } else {
            0
        };
        let v: u8 = if self.service_flag {
            1
        } else {
            0
        };
        push_u8(out, (s << 7u8) | (t << 6u8) | (v << 5u8) | 0x10 | (((self.sogi_priority >> 8u16) as u8) & 0x0F));
        push_u8(out, self.sogi_priority as u8);
        if self.service_flag {
            let id = match self.service_id {
                Some(id) => id,
                None => 0,
            };
            push_u16(out, id);
        }
        if self.target_region_flag {
            let empty: &[u8] = &[];
            let region: &[u8] = match self.target_region_loop {
                Some(r) => r,
                None => empty,
            };
            assert(region@ == self.region_bytes()) by {
                if self.target_region_loop is None {
                    assert(empty@ =~= Seq::<u8>::empty());
                }
            }
            push_u8(out, (region.len() % 256) as u8);
            push_bytes(out, region);
        }
        assert(out@ =~= old(out)@ + self.wire());
    }

    /// Marks (with 1) the entry bytes that serialization leaves as they were:
    /// the two service_id bytes when the service flag is set without an id.
    pub open spec fn keep_mask(&self) -> Seq<u8> {
        zeros(2) + (if self.service_flag {
            if self.service_id is Some {
                zeros(2)
            } else {
                seq![1u8, 1u8]
            }
        } else {
            Seq::empty()
        }) + (if self.target_region_flag {
            zeros(1 + self.region_bytes().len())
        } else {
            Seq::empty()
        })
    }

    /// Appends the entry's keep marks to `out`.
    pub fn write_keep(&self, out: &mut Vec<u8>)
        ensures
            final(out)@ == old(out)@ + self.keep_mask(),
            self.keep_mask().len() == self.wire().len(),
    {
        push_zeros(out, 2);
        if self.service_flag {
            match self.service_id {
                Some(_) => push_zeros(out, 2),
                None => {
                    push_u8(out, 1);
                    push_u8(out, 1);
                },
            }
        }
        if self.target_region_flag {
            let n: usize = match self.target_region_loop {
                Some(r) => r.len(),
                None => 0,
            };
            push_zeros(out, 1);
            push_zeros(out, n);
        }
        assert(out@ =~= old(out)@ + self.keep_mask());
    }
}

proof fn lemma_sogi_entry_encode_parse(e: SogiEntry)
    requires
        e.wf(),
    ensures
        2 <= sogi_entry_len(e.wire()) == e.wire().len(),
        e.decodes(e.wire()),
{
    let w = e.wire();
    lemma_sogi_bits(0, 0, bit(e.sogi_flag), bit(e.target_region_flag), bit(e.service_flag), e.sogi_priority);
    let q: int = if e.service_flag { 4 } else { 2 };
    match e.service_id {
        Some(id) => {
            lemma_be16_of_bytes(id);
            assert(w.subrange(2, 4) =~= u16_bytes(id));
        },
        None => {},
    }
    if e.target_region_flag {
        assert(w.subrange(q + 1, w.len() as int) =~= e.region_bytes());
    }
}

proof fn lemma_sogi_entry_parse_encode(t: Seq<u8>, e: SogiEntry)
    requires
        t.len() >= 2,
        sogi_entry_len(t) == t.len(),
        e.decodes(t),
        t[0] & 0x10 != 0,
    ensures
        e.wire() == t,
        e.wf(),
{
    lemma_sogi_bits(t[0], t[1], 0, 0, 0, 0);
    if (t[0] >> 5u8) & 0x01 != 0 {
        lemma_bytes_of_be16(t, 2);
    }
    assert(e.wire() =~= t);
}

proof fn lemma_sogi_entry_relength(t: Seq<u8>, e: SogiEntry)
    requires
        t.len() >= 2,
        sogi_entry_len(t) == t.len(),
        e.decodes(t),
    ensures
        e.wire().len() == t.len(),
        e.wf(),
{
    lemma_sogi_bits(t[0], t[1], 0, 0, 0, 0);
}

impl<'a> ServiceProminence<'a> {
    /// The SOGI list bytes of the selector `s`.
    pub open spec fn list_bytes(s: Seq<u8>) -> Seq<u8> {
        s.subrange(1, 1 + s[0])
    }

    /// Parsing succeeds on exactly these selector bytes.
    pub open spec fn sel_ok(s: Seq<u8>) -> bool {
        s.len() >= 1 && s.len() >= 1 + s[0] && run_ok(Self::list_bytes(s), sogi_len_fn())
    }

    /// The error reported for selector bytes that do not parse.
    pub open spec fn sel_error(e: Error, s: Seq<u8>) -> bool {
        is_invalid(e, super::TAG)
    }

    /// The reserved bit of every SOGI entry is one.
    pub open spec fn canonical(s: Seq<u8>) -> bool {
        run_all(Self::list_bytes(s), sogi_len_fn(), sogi_canon_fn())
    }

    /// `self` is what parsing the selector bytes `s` yields.
    pub open spec fn decodes(&self, s: Seq<u8>) -> bool {
        &&& run_decodes(self.sogi_list@, Self::list_bytes(s), sogi_len_fn(), sogi_dec_fn())
        &&& self.private_data@ == s.subrange(1 + s[0], s.len() as int)
    }

    /// The SOGI list bytes.
    pub open spec fn list_wire(&self) -> Seq<u8> {
        concat_map(self.sogi_list@, sogi_enc_fn())
    }

    /// The selector bytes written by `serialize_into`.
    pub open spec fn wire(&self) -> Seq<u8> {
        seq![(self.list_wire().len() % 256) as u8] + self.list_wire() + self.private_data@
    }

    /// Every entry is well formed and the list fits its length byte.
    pub open spec fn wf(&self) -> bool {
        &&& forall|i: int| 0 <= i < self.sogi_list@.len() ==> #[trigger] self.sogi_list@[i].wf()
        &&& self.list_wire().len() <= 255
    }

    /// Parses the service_prominence body.
    pub fn parse(sel: &'a [u8]) -> (r: Result<Self, Error>)
        ensures
            r is Ok <==> Self::sel_ok(sel@),
            r matches Ok(d) ==> d.decodes(sel@),
            r matches Err(e) ==> Self::sel_error(e, sel@),
    {
        if sel.len() == 0 {
            return Err(invalid("service_prominence: sogi_list_length truncated"));
        }
        let sogi_list_length = sel[0] as usize;
        if sel.len() < 1 + sogi_list_length {
            return Err(invalid("service_prominence: sogi_list overruns body"));
        }
        let sogi = &sel[1..1 + sogi_list_length];
        let ghost b = sogi@;
        proof {
            lemma_sogi_len_stable();
            assert(b.subrange(0, 0) =~= Seq::<u8>::empty());
            assert(b.subrange(0, b.len() as int) =~= b);
            assert(b =~= Self::list_bytes(sel@));
        }
        let mut k: usize = 0;
        let mut sogi_list: Vec<SogiEntry<'a>> = Vec::new();
        while k < sogi.len()
            invariant
                k <= sogi.len(),
                b == sogi@,
                b == Self::list_bytes(sel@),
                len_stable(sogi_len_fn()),
                run_ok(b, sogi_len_fn()) == run_ok(b.subrange(k as int, b.len() as int), sogi_len_fn()),
                run_decodes(sogi_list@, b.subrange(0, k as int), sogi_len_fn(), sogi_dec_fn()),
            decreases sogi.len() - k,
        {
            let ghost t = b.subrange(k as int, b.len() as int);
            if sogi.len() - k < 2 {
                proof {
                    assert(sogi_len_fn()(t) > t.len());
                }
                return Err(invalid("service_prominence: SOGI entry overruns list"));
            }
            let byte0 = sogi[k];
            assert(t[0] == byte0);
            let mut q: usize = 2;
            if ((byte0 >> 5u8) & 0x01) != 0 {
                if sogi.len() - k < 4 {
                    proof {
                        assert(sogi_len_fn()(t) > t.len());
                    }
                    return Err(invalid("service_prominence: SOGI entry overruns list"));
                }
                q = 4;
            }
            let mut need = q;
            if ((byte0 >> 6u8) & 0x01) != 0 {
                if sogi.len() - k < q + 1 {
                    proof {
                        assert(sogi_len_fn()(t) > t.len());
                    }
                    return Err(invalid("service_prominence: SOGI entry overruns list"));
                }
                let region_len = sogi[k + q] as usize;
                assert(t[q as int] == sogi[k + q]);
                if sogi.len() - k - q - 1 < region_len {
                    proof {
                        assert(sogi_len_fn()(t) > t.len());
                    }
                    return Err(invalid("service_prominence: SOGI entry overruns list"));
                }
                need = q + 1 + region_len;
            }
            assert(need == sogi_entry_len(t));
            let e = SogiEntry::parse_at(sogi, k);
            proof {
                lemma_run_step(b, k as int, sogi_len_fn());
                let et = b.subrange(k as int, k + need);
                assert(sogi_len_fn()(et) == need) by {
                    assert(et[0] == t[0]);
                    if ((byte0 >> 6u8) & 0x01) != 0 {
                        assert(et[q as int] == t[q as int]);
                    }
                }
                lemma_run_push(sogi_list@, b.subrange(0, k as int), e, et, sogi_len_fn(), sogi_dec_fn());
                assert(b.subrange(0, k as int) + et =~= b.subrange(0, k + need));
            }
            sogi_list.push(e);
            k = k + need;
        }
        proof {
            assert(b.subrange(0, k as int) =~= b);
        }
        Ok(ServiceProminence { sogi_list, private_data: &sel[1 + sogi_list_length..sel.len()] })
    }

    /// Length of the SOGI list bytes.
    fn list_len(&self) -> (n: usize)
        requires
            self.wire().len() <= usize::MAX,
        ensures
            n == self.list_wire().len(),
    {
        let mut total: usize = 0;
        let mut i: usize = 0;
        while i < self.sogi_list.len()
            invariant
                i <= self.sogi_list@.len(),
                self.wire().len() <= usize::MAX,
                total == concat_map(self.sogi_list@.subrange(0, i as int), sogi_enc_fn()).len(),
            decreases self.sogi_list@.len() - i,
        {
            proof {
                lemma_concat_map_push(self.sogi_list@.subrange(0, i as int), self.sogi_list@[i as int], sogi_enc_fn());
                assert(self.sogi_list@.subrange(0, i as int).push(self.sogi_list@[i as int]) =~= self.sogi_list@.subrange(0, i + 1));
                lemma_concat_map_prefix_len(self.sogi_list@, i + 1, sogi_enc_fn());
            }
            let e = &self.sogi_list[i];
            let sid: usize = if e.service_flag {
                2
            } else {
                0
            };
            let region: usize = if e.target_region_flag {
                1 + match e.target_region_loop {
                    Some(r) => r.len(),
                    None => 0,
                }
            } else {
                0
            };
            total = total + 2 + sid + region;
            i = i + 1;
        }
        assert(self.sogi_list@.subrange(0, i as int) =~= self.sogi_list@);
        total
    }

    /// Length of the selector bytes.
    pub fn serialized_len(&self) -> (n: usize)
        requires
            self.wire().len() <= usize::MAX,
        ensures
            n == self.wire().len(),
    {
        1 + self.list_len() + self.private_data.len()
    }

    /// Appends the selector bytes to `out`.
    pub fn write_to(&self, out: &mut Vec<u8>)
        ensures
            final(out)@ == old(out)@ + self.wire(),
    {
        let pos = out.len();
        push_u8(out, 0);
        let ghost start = out@;
        let mut i: usize = 0;
        while i < self.sogi_list.len()
            invariant
                i <= self.sogi_list@.len(),
                pos == old(out)@.len(),
                start == old(out)@.push(0u8),
                out@ == start + concat_map(self.sogi_list@.subrange(0, i as int), sogi_enc_fn()),
            decreases self.sogi_list@.len() - i,
        {
            proof {
                lemma_concat_map_push(self.sogi_list@.subrange(0, i as int), self.sogi_list@[i as int], sogi_enc_fn());
                assert(self.sogi_list@.subrange(0, i as int).push(self.sogi_list@[i as int]) =~= self.sogi_list@.subrange(0, i + 1));
            }
            self.sogi_list[i].write_to(out);
            i = i + 1;
            assert(out@ =~= start + concat_map(self.sogi_list@.subrange(0, i as int), sogi_enc_fn()));
        }
        assert(self.sogi_list@.subrange(0, i as int) =~= self.sogi_list@);
        let n = out.len() - pos - 1;
        assert(n == self.list_wire().len());
        out[pos] = (n % 256) as u8;
        assert(out@ =~= old(out)@ + seq![(self.list_wire().len() % 256) as u8] + self.list_wire());
        push_bytes(out, self.private_data);
        assert(out@ =~= old(out)@ + self.wire());
    }

    /// Marks (with 1) the selector bytes that serialization leaves as they were.
    pub open spec fn keep_mask(&self) -> Seq<u8> {
        zeros(1) + concat_map(self.sogi_list@, sogi_keep_fn()) + zeros(self.private_data@.len())
    }

    /// Appends the keep marks of the selector bytes to `out`.
    pub fn write_keep(&self, out: &mut Vec<u8>)
        ensures
            final(out)@ == old(out)@ + self.keep_mask(),
            self.keep_mask().len() == self.wire().len(),
    {
        push_zeros(out, 1);
        let ghost start = out@;
        let mut i: usize = 0;
        while i < self.sogi_list.len()
            invariant
                i <= self.sogi_list@.len(),
                start == old(out)@ + zeros(1),
                out@ == start + concat_map(self.sogi_list@.subrange(0, i as int), sogi_keep_fn()),
            decreases self.sogi_list@.len() - i,
        {
            proof {
                lemma_concat_map_push(self.sogi_list@.subrange(0, i as int), self.sogi_list@[i as int], sogi_keep_fn());
                assert(self.sogi_list@.subrange(0, i as int).push(self.sogi_list@[i as int]) =~= self.sogi_list@.subrange(0, i + 1));
            }
            self.sogi_list[i].write_keep(out);
            i = i + 1;
            assert(out@ =~= start + concat_map(self.sogi_list@.subrange(0, i as int), sogi_keep_fn()));
        }
        assert(self.sogi_list@.subrange(0, i as int) =~= self.sogi_list@);
        push_zeros(out, self.private_data.len());
        assert(out@ =~= old(out)@ + self.keep_mask());
        proof {
            assert forall|e: SogiEntry| #[trigger] sogi_keep_fn()(e).len() == sogi_enc_fn()(e).len() by {}
            lemma_concat_map_same_len(self.sogi_list@, sogi_keep_fn(), sogi_enc_fn());
        }
    }

    /// Writes the selector bytes to the front of `buf`; where an entry sets the
    /// service flag without a service_id, the two id bytes of `buf` are left as
    /// they were.
    pub fn serialize_into(&self, buf: &mut [u8]) -> (r: Result<usize, Error>)
        requires
            self.wire().len() <= usize::MAX,
        ensures
            emitted_kept(r, old(buf)@, final(buf)@, self.wire(), self.keep_mask()),
    {
        let len = self.serialized_len();
        if buf.len() < len {
            return Err(Error::OutputBufferTooSmall { need: len, have: buf.len() });
        }
        let mut v: Vec<u8> = Vec::new();
        self.write_to(&mut v);
        let mut k: Vec<u8> = Vec::new();
        self.write_keep(&mut k);
        copy_to_front_masked(buf, &v, &k);
        Ok(len)
    }
}

/// Encoding then parsing a well-formed service_prominence body gives it back.
pub proof fn lemma_service_prominence_encode_parse(d: ServiceProminence)
    requires
        d.wf(),
    ensures
        ServiceProminence::sel_ok(d.wire()),
        d.decodes(d.wire()),
{
    let w = d.wire();
    lemma_sogi_len_stable();
    let es = d.sogi_list@;
    assert forall|i: int| 0 <= i < es.len() implies 0 < sogi_len_fn()(#[trigger] sogi_enc_fn()(es[i]))
        == sogi_enc_fn()(es[i]).len() && sogi_dec_fn()(es[i], sogi_enc_fn()(es[i])) by {
        assert(es[i].wf());
        lemma_sogi_entry_encode_parse(es[i]);
    }
    lemma_run_of_encoded(es, sogi_len_fn(), sogi_dec_fn(), sogi_enc_fn());
    let n: int = d.list_wire().len() as int;
    assert(ServiceProminence::list_bytes(w) =~= d.list_wire());
    assert(w.subrange(1 + n, w.len() as int) =~= d.private_data@);
}

/// Parsing then encoding canonical service_prominence bytes gives them back.
pub proof fn lemma_service_prominence_parse_encode(s: Seq<u8>, d: ServiceProminence)
    requires
        ServiceProminence::sel_ok(s),
        ServiceProminence::canonical(s),
        d.decodes(s),
    ensures
        d.wire() == s,
        d.wf(),
{
    let b = ServiceProminence::list_bytes(s);
    assert forall|e: SogiEntry, t: Seq<u8>| #[trigger] sogi_dec_fn()(e, t) && sogi_canon_fn()(t) implies sogi_enc_fn()(e)
        == t && sogi_good_fn()(e) by {
        lemma_sogi_entry_parse_encode(t, e);
    }
    lemma_run_reencodes(d.sogi_list@, b, sogi_len_fn(), sogi_dec_fn(), sogi_enc_fn(), sogi_canon_fn(), sogi_good_fn());
    assert(d.wire() =~= s);
    assert forall|i: int| 0 <= i < d.sogi_list@.len() implies #[trigger] d.sogi_list@[i].wf() by {
        assert(sogi_good_fn()(d.sogi_list@[i]));
    }
}

/// A parsed ServiceProminence is well formed: it encodes again, and parsing that encoding
/// yields it back.
pub proof fn lemma_service_prominence_reparse(s: Seq<u8>, d: ServiceProminence)
    requires
        ServiceProminence::sel_ok(s),
        d.decodes(s),
    ensures
        d.wf(),
        ServiceProminence::sel_ok(d.wire()),
        d.decodes(d.wire()),
        d.wire().len() <= s.len(),
{
    assert forall|e: SogiEntry, t: Seq<u8>| #[trigger] sogi_dec_fn()(e, t) implies sogi_enc_fn()(e).len()
        <= t.len() && sogi_good_fn()(e) by {
        lemma_sogi_entry_relength(t, e);
    }
    lemma_run_relength(
        d.sogi_list@,
        ServiceProminence::list_bytes(s),
        sogi_len_fn(),
        sogi_dec_fn(),
        sogi_enc_fn(),
        sogi_good_fn(),
    );
    assert forall|i: int| 0 <= i < d.sogi_list@.len() implies #[trigger] d.sogi_list@[i].wf() by {
        assert(sogi_good_fn()(d.sogi_list@[i]));
    }
    lemma_service_prominence_encode_parse(d);
}

} // verus!
