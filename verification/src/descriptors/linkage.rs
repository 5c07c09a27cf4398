//! Linkage Descriptor — ETSI EN 300 468 §6.2.19 (tag 0x4A).
//!
//! Carried inside NIT (network linkage), BAT (bouquet linkage) and
//! SDT (service replacement / premiere hand-over).
//!
//! Conditional inner structures (§6.2.19.2–4):
//! - `linkage_type == 0x08` → [`MobileHandOverInfo`]
//! - `linkage_type == 0x0D` → [`EventLinkageInfo`]
//! - `linkage_type 0x0E..=0x1F` → [`ExtendedEventLinkageInfo`]
//!
//! Linkage types whose conditional block is defined elsewhere (0x09..=0x0C,
//! 0x20, 0x21) or by the user (0x80..=0xFE) keep their whole tail raw; all
//! other types have no conditional block and their tail is `private_data`.

use super::{body_of, descriptor_body, emitted, framed, framed_prefix, header_error, header_ok, lemma_framed_parses, lemma_reframe, HEADER_LEN};
use crate::error::{is_invalid, is_too_short, Error};
use crate::runs::{
    lemma_run_of_encoded, lemma_run_push, lemma_run_reencodes, lemma_run_step, len_stable,
    run_all, run_decodes, run_ok,
};
use crate::wire::{
    be16, concat_map, copy_to_front, lemma_be16_of_bytes, lemma_bytes_of_be16, lemma_concat_map_prefix_len,
    lemma_concat_map_push, push_bytes, push_u16, push_u8, read_u16, u16_bytes,
};
use vstd::prelude::*;

verus! {

/// Descriptor tag for linkage_descriptor.
pub const TAG: u8 = 0x4A;

/// transport_stream_id, original_network_id, service_id and linkage_type.
const FIXED_FIELDS_LEN: usize = 7;

/// The bytes of an optional 16-bit field: nothing when absent.
pub open spec fn opt16(o: Option<u16>) -> Seq<u8> {
    match o {
        Some(v) => u16_bytes(v),
        None => Seq::empty(),
    }
}

/// Appends an optional 16-bit field.
fn push_opt16(out: &mut Vec<u8>, o: Option<u16>)
    ensures
        final(out)@ == old(out)@ + opt16(o),
{
    match o {
        Some(v) => push_u16(out, v),
        None => {
            assert(out@ =~= old(out)@ + opt16(o));
        },
    }
}

/// Size in bytes of an optional 16-bit field.
fn opt16_len(o: Option<u16>) -> (n: usize)
    ensures
        n == opt16(o).len(),
{
    match o {
        Some(_) => 2,
        None => 0,
    }
}

// ---------------------------------------------------------------------------
// Mobile hand-over info (linkage_type 0x08)
// ---------------------------------------------------------------------------

/// A hand_over_type that carries a network_id.
pub open spec fn has_network_id(hand_over_type: int) -> bool {
    1 <= hand_over_type <= 3
}

/// Size of the mobile hand-over info announced by its flags byte `f`.
pub open spec fn mho_len(f: u8) -> int {
    1 + (if has_network_id((f / 16) as int) {
        2int
    } else {
        0int
    }) + (if f % 2 == 0 {
        2int
    } else {
        0int
    })
}

/// Mobile hand-over info (`linkage_type == 0x08`).
#[derive(Debug, Clone, PartialEq, Eq)]
pub struct MobileHandOverInfo {
    /// hand_over_type — 4 bits `[7:4]`.
    pub hand_over_type: u8,
    /// origin_type — 1 bit `[0]`.  `false` = NIT, `true` = SDT.
    pub origin_type: bool,
    /// network_id — present only when hand_over_type is 1, 2 or 3.
    pub network_id: Option<u16>,
    /// initial_service_id — present only when `origin_type == false` (NIT).
    pub initial_service_id: Option<u16>,
}

impl MobileHandOverInfo {
    /// `self` is what parsing the hand-over bytes at the front of `t` yields.
    pub open spec fn decodes(&self, t: Seq<u8>) -> bool {
        let f = t[0];
        let nid_end = if has_network_id((f / 16) as int) {
            3int
        } else {
            1int
        };
        &&& self.hand_over_type == f / 16
        &&& self.origin_type == (f % 2 == 1)
        &&& self.network_id == if has_network_id((f / 16) as int) {
            Some(be16(t, 1) as u16)
        } else {
            None
        }
        &&& self.initial_service_id == if f % 2 == 0 {
            Some(be16(t, nid_end) as u16)
        } else {
            None
        }
    }

    /// The flags byte written: hand_over_type, three reserved ones, origin_type.
    pub open spec fn flags_byte(&self) -> u8 {
        ((self.hand_over_type * 16) % 256 + 14 + (if self.origin_type {
            1int
        } else {
            0int
        })) as u8
    }

    /// The hand-over bytes.
    pub open spec fn wire(&self) -> Seq<u8> {
        seq![self.flags_byte()] + opt16(self.network_id) + opt16(self.initial_service_id)
    }

    /// The fields agree with the presence rules and fit their widths.
    pub open spec fn wf(&self) -> bool {
        &&& self.hand_over_type < 16
        &&& self.network_id.is_some() == has_network_id(self.hand_over_type as int)
        &&& self.initial_service_id.is_some() == !self.origin_type
    }

    fn serialized_len(&self) -> (n: usize)
        ensures
            n == self.wire().len(),
    {
        1 + opt16_len(self.network_id) + opt16_len(self.initial_service_id)
    }

    /// Appends the hand-over bytes.
    fn push_wire(&self, out: &mut Vec<u8>)
        ensures
            final(out)@ == old(out)@ + self.wire(),
    {
        let o: u8 = if self.origin_type {
            1
        } else {
            0
        };
        let f: u8 = ((self.hand_over_type as u32 * 16) % 256) as u8 + 14 + o;
        assert(f == self.flags_byte());
        push_u8(out, f);
        push_opt16(out, self.network_id);
        push_opt16(out, self.initial_service_id);
        assert(out@ =~= old(out)@ + self.wire());
    }
}

/// Parses mobile hand-over info from the first `end` bytes of `bytes`.
fn parse_mobile_handover(bytes: &[u8], end: usize) -> (r: Result<MobileHandOverInfo, Error>)
    requires
        end == bytes@.len(),
    ensures
        r is Ok <==> (bytes@.len() >= 1 && bytes@.len() >= mho_len(bytes@[0])),
        r matches Ok(m) ==> m.decodes(bytes@) && m.wire().len() == mho_len(bytes@[0]),
        r matches Err(e) ==> is_invalid(e, TAG),
{
    if end < 1 {
        return Err(Error::InvalidDescriptor { tag: TAG, reason: "mobile hand-over info needs at least flags byte" });
    }
    let flags_byte = bytes[0];
    let hand_over_type = flags_byte / 16;
    let origin_type = flags_byte % 2 == 1;
    let mut pos: usize = 1;
    let network_id = if 1 <= hand_over_type && hand_over_type <= 3 {
        if pos + 2 > end {
            return Err(
                Error::InvalidDescriptor {
                    tag: TAG,
                    reason: "mobile hand-over info with gated network_id needs at least 3 bytes",
                },
            );
        }
        let nid = read_u16(bytes, pos);
        pos = pos + 2;
        Some(nid)
    } else {
        None
    };
    let initial_service_id = if !origin_type {
        if pos + 2 > end {
            return Err(
                Error::InvalidDescriptor {
                    tag: TAG,
                    reason: "mobile hand-over info with origin_type=NIT needs initial_service_id",
                },
            );
        }
        Some(read_u16(bytes, pos))
    } else {
        None
    };
    Ok(MobileHandOverInfo { hand_over_type, origin_type, network_id, initial_service_id })
}

// ---------------------------------------------------------------------------
// Event linkage info (linkage_type 0x0D)
// ---------------------------------------------------------------------------

/// Event linkage info (`linkage_type == 0x0D`).
#[derive(Debug, Clone, PartialEq, Eq)]
pub struct EventLinkageInfo {
    /// target_event_id — 16 bits.
    pub target_event_id: u16,
    /// target_listed — 1 bit `[7]`.
    pub target_listed: bool,
    /// event_simulcast — 1 bit `[6]`.
    pub event_simulcast: bool,
}

/// Size of the event linkage info.
const EVENT_LINKAGE_LEN: usize = 3;

impl EventLinkageInfo {
    /// `self` is what parsing the event linkage bytes at the front of `t` yields.
    pub open spec fn decodes(&self, t: Seq<u8>) -> bool {
        &&& self.target_event_id == be16(t, 0)
        &&& self.target_listed == (t[2] >= 128)
        &&& self.event_simulcast == ((t[2] / 64) % 2 == 1)
    }

    /// The flags byte written: the two flags over six reserved ones.
    pub open spec fn flags_byte(&self) -> u8 {
        (63 + (if self.target_listed {
            128int
        } else {
            0int
        }) + (if self.event_simulcast {
            64int
        } else {
            0int
        })) as u8
    }

    /// The event linkage bytes.
    pub open spec fn wire(&self) -> Seq<u8> {
        u16_bytes(self.target_event_id) + seq![self.flags_byte()]
    }

    /// Appends the event linkage bytes.
    fn push_wire(&self, out: &mut Vec<u8>)
        ensures
            final(out)@ == old(out)@ + self.wire(),
    {
        push_u16(out, self.target_event_id);
        let mut f: u8 = 63;
        if self.target_listed {
            f = f + 128;
        }
        if self.event_simulcast {
            f = f + 64;
        }
        push_u8(out, f);
        assert(out@ =~= old(out)@ + self.wire());
    }
}

/// Parses event linkage info from the front of `bytes`.
fn parse_event_linkage(bytes: &[u8]) -> (r: Result<EventLinkageInfo, Error>)
    ensures
        r is Ok <==> bytes@.len() >= 3,
        r matches Ok(e) ==> e.decodes(bytes@),
        r matches Err(e) ==> is_invalid(e, TAG),
{
    if bytes.len() < EVENT_LINKAGE_LEN {
        return Err(Error::InvalidDescriptor { tag: TAG, reason: "event linkage info needs 3 bytes" });
    }
    let target_event_id = read_u16(bytes, 0);
    let target_listed = bytes[2] >= 0x80;
    let event_simulcast = (bytes[2] / 64) % 2 == 1;
    Ok(EventLinkageInfo { target_event_id, target_listed, event_simulcast })
}

// ---------------------------------------------------------------------------
// Extended event linkage info (linkage_type 0x0E..=0x1F)
// ---------------------------------------------------------------------------

/// Target identification of an extended event linkage entry.
#[derive(Debug, Clone, PartialEq, Eq)]
pub enum TargetId {
    /// `target_id_type == 3` — user_defined_id (16 bits).
    UserDefined {
        /// User-defined target service identifier.
        user_defined_id: u16,
    },
    /// `target_id_type != 3` — DVB addressing with optional sub-fields.
    Dvb {
        /// `target_id_type` value (0, 1, or 2).
        target_id_type: u8,
        /// target_transport_stream_id — present when `target_id_type == 1`.
        target_transport_stream_id: Option<u16>,
        /// target_original_network_id — present when `original_network_id_flag == 1`.
        target_original_network_id: Option<u16>,
        /// target_service_id — present when `service_id_flag == 1`.
        target_service_id: Option<u16>,
    },
}

impl TargetId {
    /// The target identification bytes.
    pub open spec fn wire(&self) -> Seq<u8> {
        match *self {
            TargetId::UserDefined { user_defined_id } => u16_bytes(user_defined_id),
            TargetId::Dvb { target_transport_stream_id, target_original_network_id, target_service_id, .. } => opt16(
                target_transport_stream_id,
            ) + opt16(target_original_network_id) + opt16(target_service_id),
        }
    }

    fn serialized_len(&self) -> (n: usize)
        ensures
            n == self.wire().len(),
    {
        match self {
            TargetId::UserDefined { .. } => 2,
            TargetId::Dvb { target_transport_stream_id, target_original_network_id, target_service_id, .. } => {
                opt16_len(*target_transport_stream_id) + opt16_len(*target_original_network_id) + opt16_len(
                    *target_service_id,
                )
            },
        }
    }

    /// Appends the target identification bytes.
    fn push_wire(&self, out: &mut Vec<u8>)
        ensures
            final(out)@ == old(out)@ + self.wire(),
    {
        match self {
            TargetId::UserDefined { user_defined_id } => push_u16(out, *user_defined_id),
            TargetId::Dvb { target_transport_stream_id, target_original_network_id, target_service_id, .. } => {
                push_opt16(out, *target_transport_stream_id);
                push_opt16(out, *target_original_network_id);
                push_opt16(out, *target_service_id);
                assert(out@ =~= old(out)@ + self.wire());
            },
        }
    }
}

/// The target_id_type of an entry flags byte `f`.
pub open spec fn tid_type_of(f: u8) -> int {
    ((f / 4) % 4) as int
}

/// Size of the target identification announced by the entry flags byte `f`.
pub open spec fn tid_len(f: u8) -> int {
    if tid_type_of(f) == 3 {
        2
    } else {
        (if tid_type_of(f) == 1 {
            2int
        } else {
            0int
        }) + (if (f / 2) % 2 == 1 {
            2int
        } else {
            0int
        }) + (if f % 2 == 1 {
            2int
        } else {
            0int
        })
    }
}

/// One entry in the extended event linkage loop.
#[derive(Debug, Clone, PartialEq, Eq)]
pub struct ExtendedEventLinkageEntry {
    /// target_event_id — 16 bits.
    pub target_event_id: u16,
    /// target_listed — 1 bit `[7]`.
    pub target_listed: bool,
    /// event_simulcast — 1 bit `[6]`.
    pub event_simulcast: bool,
    /// link_type — 2 bits `[5:4]`.
    pub link_type: u8,
    /// target_id_type — 2 bits `[3:2]`.
    pub target_id_type: u8,
    /// original_network_id_flag — 1 bit `[1]`.
    pub original_network_id_flag: bool,
    /// service_id_flag — 1 bit `[0]`.
    pub service_id_flag: bool,
    /// Conditional target identification.
    pub target_id: TargetId,
}

/// Size of the entry at the front of `t`; larger than `t` when it does not fit.
pub open spec fn entry_len(t: Seq<u8>) -> int {
    if t.len() < 3 {
        3
    } else {
        3 + tid_len(t[2])
    }
}

pub open spec fn entry_len_fn() -> spec_fn(Seq<u8>) -> int {
    |t: Seq<u8>| entry_len(t)
}

pub open spec fn entry_dec_fn() -> spec_fn(ExtendedEventLinkageEntry, Seq<u8>) -> bool {
    |e: ExtendedEventLinkageEntry, t: Seq<u8>| t.len() >= 3 && entry_len(t) == t.len() && e.decodes(t)
}

pub open spec fn entry_enc_fn() -> spec_fn(ExtendedEventLinkageEntry) -> Seq<u8> {
    |e: ExtendedEventLinkageEntry| e.wire()
}

pub open spec fn entry_canon_fn() -> spec_fn(Seq<u8>) -> bool {
    |t: Seq<u8>| true
}

pub open spec fn entry_good_fn() -> spec_fn(ExtendedEventLinkageEntry) -> bool {
    |e: ExtendedEventLinkageEntry| e.wf()
}

pub proof fn lemma_entry_len_stable()
    ensures
        len_stable(entry_len_fn()),
{
    assert forall|a: Seq<u8>, b: Seq<u8>| 0 < entry_len_fn()(a) <= a.len() implies #[trigger] entry_len_fn()(a + b)
        == entry_len_fn()(a) by {
        assert((a + b)[2] == a[2]);
    }
}

impl ExtendedEventLinkageEntry {
    /// `self` is what parsing the entry bytes `t` yields.
    pub open spec fn decodes(&self, t: Seq<u8>) -> bool {
        let f = t[2];
        let ts_end = if tid_type_of(f) == 1 {
            5int
        } else {
            3int
        };
        let onid_end = ts_end + if (f / 2) % 2 == 1 {
            2int
        } else {
            0int
        };
        &&& self.target_event_id == be16(t, 0)
        &&& self.target_listed == (f >= 128)
        &&& self.event_simulcast == ((f / 64) % 2 == 1)
        &&& self.link_type == (f / 16) % 4
        &&& self.target_id_type == tid_type_of(f)
        &&& self.original_network_id_flag == ((f / 2) % 2 == 1)
        &&& self.service_id_flag == (f % 2 == 1)
        &&& self.target_id == if tid_type_of(f) == 3 {
            TargetId::UserDefined { user_defined_id: be16(t, 3) as u16 }
        } else {
            TargetId::Dvb {
                target_id_type: tid_type_of(f) as u8,
                target_transport_stream_id: if tid_type_of(f) == 1 {
                    Some(be16(t, 3) as u16)
                } else {
                    None
                },
                target_original_network_id: if (f / 2) % 2 == 1 {
                    Some(be16(t, ts_end) as u16)
                } else {
                    None
                },
                target_service_id: if f % 2 == 1 {
                    Some(be16(t, onid_end) as u16)
                } else {
                    None
                },
            }
        }
    }

    /// The flags byte written.
    pub open spec fn flags_byte(&self) -> u8 {
        ((if self.target_listed {
            128int
        } else {
            0int
        }) + (if self.event_simulcast {
            64int
        } else {
            0int
        }) + (self.link_type % 4) * 16 + (self.target_id_type % 4) * 4 + (if self.original_network_id_flag {
            2int
        } else {
            0int
        }) + (if self.service_id_flag {
            1int
        } else {
            0int
        })) as u8
    }

    /// The entry bytes.
    pub open spec fn wire(&self) -> Seq<u8> {
        u16_bytes(self.target_event_id) + seq![self.flags_byte()] + self.target_id.wire()
    }

    /// The fields fit their widths and the target identification agrees with the flags.
    pub open spec fn wf(&self) -> bool {
        &&& self.link_type < 4
        &&& self.target_id_type < 4
        &&& match self.target_id {
            TargetId::UserDefined { .. } => self.target_id_type == 3,
            TargetId::Dvb {
                target_id_type,
                target_transport_stream_id,
                target_original_network_id,
                target_service_id,
            } => {
                &&& self.target_id_type != 3
                &&& target_id_type == self.target_id_type
                &&& target_transport_stream_id.is_some() == (self.target_id_type == 1)
                &&& target_original_network_id.is_some() == self.original_network_id_flag
                &&& target_service_id.is_some() == self.service_id_flag
            },
        }
    }

    fn serialized_len(&self) -> (n: usize)
        ensures
            n == self.wire().len(),
    {
        2 + 1 + self.target_id.serialized_len()
    }

    /// Appends the entry bytes.
    fn push_wire(&self, out: &mut Vec<u8>)
        ensures
            final(out)@ == old(out)@ + self.wire(),
    {
        push_u16(out, self.target_event_id);
        let mut f: u8 = (self.link_type % 4) * 16 + (self.target_id_type % 4) * 4;
        if self.target_listed {
            f = f + 128;
        }
        if self.event_simulcast {
            f = f + 64;
        }
        if self.original_network_id_flag {
            f = f + 2;
        }
        if self.service_id_flag {
            f = f + 1;
        }
        assert(f == self.flags_byte());
        push_u8(out, f);
        self.target_id.push_wire(out);
        assert(out@ =~= old(out)@ + self.wire());
    }
}

/// Reads a 16-bit entry field at `*p`, which must end by `loop_end`.
fn read_entry_u16(bytes: &[u8], p: &mut usize, loop_end: usize) -> (r: Result<u16, Error>)
    requires
        loop_end <= bytes.len(),
    ensures
        r is Ok <==> *old(p) + 2 <= loop_end,
        r matches Ok(v) ==> v == be16(bytes@, *old(p) as int) && *final(p) == *old(p) + 2,
        r matches Err(e) ==> is_invalid(e, TAG),
{
    if *p > loop_end || loop_end - *p < 2 {
        return Err(
            Error::InvalidDescriptor { tag: TAG, reason: "extended event linkage entry truncated (need u16)" },
        );
    }
    let v = read_u16(bytes, *p);
    *p = *p + 2;
    Ok(v)
}

/// Parses the extended event linkage entry at `bytes[pos..loop_end]`,
/// returning it and the offset after it.
fn parse_extended_entry(bytes: &[u8], pos: usize, loop_end: usize) -> (r: Result<
    (ExtendedEventLinkageEntry, usize),
    Error,
>)
    requires
        pos < loop_end <= bytes.len(),
    ensures
        ({
            let t = bytes@.subrange(pos as int, loop_end as int);
            match r {
                Ok((e, end)) => {
                    &&& 0 < entry_len(t) <= t.len()
                    &&& end == pos + entry_len(t)
                    &&& entry_dec_fn()(e, bytes@.subrange(pos as int, end as int))
                },
                Err(err) => !(0 < entry_len(t) <= t.len()) && is_invalid(err, TAG),
            }
        }),
{
    let ghost t = bytes@.subrange(pos as int, loop_end as int);
    let mut p = pos;
    let target_event_id = read_entry_u16(bytes, &mut p, loop_end)?;
    if p >= loop_end {
        return Err(
            Error::InvalidDescriptor { tag: TAG, reason: "extended event linkage entry truncated (need flags byte)" },
        );
    }
    let fb = bytes[p];
    assert(t[2] == fb);
    p = p + 1;
    let target_listed = fb >= 0x80;
    let event_simulcast = (fb / 64) % 2 == 1;
    let link_type = (fb / 16) % 4;
    let target_id_type = (fb / 4) % 4;
    let original_network_id_flag = (fb / 2) % 2 == 1;
    let service_id_flag = fb % 2 == 1;
    let target_id = if target_id_type == 3 {
        let user_defined_id = read_entry_u16(bytes, &mut p, loop_end)?;
        TargetId::UserDefined { user_defined_id }
    } else {
        let target_transport_stream_id = if target_id_type == 1 {
            Some(read_entry_u16(bytes, &mut p, loop_end)?)
        } else {
            None
        };
        let target_original_network_id = if original_network_id_flag {
            Some(read_entry_u16(bytes, &mut p, loop_end)?)
        } else {
            None
        };
        let target_service_id = if service_id_flag {
            Some(read_entry_u16(bytes, &mut p, loop_end)?)
        } else {
            None
        };
        TargetId::Dvb { target_id_type, target_transport_stream_id, target_original_network_id, target_service_id }
    };
    let e = ExtendedEventLinkageEntry {
        target_event_id,
        target_listed,
        event_simulcast,
        link_type,
        target_id_type,
        original_network_id_flag,
        service_id_flag,
        target_id,
    };
    proof {
        let et = bytes@.subrange(pos as int, p as int);
        assert(et[2] == fb);
        assert forall|i: int| 0 <= i && i + 1 < et.len() implies #[trigger] be16(et, i) == be16(bytes@, pos + i) by {}
    }
    Ok((e, p))
}

/// Extended event linkage info (`linkage_type 0x0E..=0x1F`).
#[derive(Debug, Clone, PartialEq, Eq)]
pub struct ExtendedEventLinkageInfo {
    /// Entries in the extended event linkage loop.
    pub entries: Vec<ExtendedEventLinkageEntry>,
}

impl ExtendedEventLinkageInfo {
    /// The entry loop of the extended info at the front of `t`.
    pub open spec fn loop_bytes(t: Seq<u8>) -> Seq<u8> {
        t.subrange(1, 1 + t[0])
    }

    /// Parsing succeeds on exactly these tails.
    pub open spec fn bytes_ok(t: Seq<u8>) -> bool {
        t.len() >= 1 && t.len() >= 1 + t[0] && run_ok(Self::loop_bytes(t), entry_len_fn())
    }

    /// `self` is what parsing the extended info at the front of `t` yields.
    pub open spec fn decodes(&self, t: Seq<u8>) -> bool {
        run_decodes(self.entries@, Self::loop_bytes(t), entry_len_fn(), entry_dec_fn())
    }

    /// The entry loop bytes.
    pub open spec fn loop_wire(&self) -> Seq<u8> {
        concat_map(self.entries@, entry_enc_fn())
    }

    /// The extended info bytes: loop_length, then the entries.
    pub open spec fn wire(&self) -> Seq<u8> {
        seq![(self.loop_wire().len() % 256) as u8] + self.loop_wire()
    }

    /// Every entry is well formed and the loop fits its length byte.
    pub open spec fn wf(&self) -> bool {
        &&& forall|i: int| 0 <= i < self.entries@.len() ==> #[trigger] self.entries@[i].wf()
        &&& self.loop_wire().len() <= 255
    }

    fn loop_len(&self) -> (n: usize)
        requires
            self.wire().len() <= usize::MAX,
        ensures
            n == self.loop_wire().len(),
    {
        let mut total: usize = 0;
        let mut i: usize = 0;
        while i < self.entries.len()
            invariant
                i <= self.entries@.len(),
                self.wire().len() <= usize::MAX,
                total == concat_map(self.entries@.subrange(0, i as int), entry_enc_fn()).len(),
            decreases self.entries@.len() - i,
        {
            proof {
                lemma_concat_map_push(self.entries@.subrange(0, i as int), self.entries@[i as int], entry_enc_fn());
                assert(self.entries@.subrange(0, i as int).push(self.entries@[i as int]) =~= self.entries@.subrange(
                    0,
                    i + 1,
                ));
                lemma_concat_map_prefix_len(self.entries@, i + 1, entry_enc_fn());
            }
            total = total + self.entries[i].serialized_len();
            i = i + 1;
        }
        assert(self.entries@.subrange(0, i as int) =~= self.entries@);
        total
    }

    fn serialized_len(&self) -> (n: usize)
        requires
            self.wire().len() <= usize::MAX,
        ensures
            n == self.wire().len(),
    {
        1 + self.loop_len()
    }

    /// Appends the extended info bytes.
    fn push_wire(&self, out: &mut Vec<u8>)
        requires
            self.wire().len() <= usize::MAX,
        ensures
            final(out)@ == old(out)@ + self.wire(),
    {
        let ghost start = old(out)@;
        push_u8(out, (self.loop_len() % 256) as u8);
        let ghost mid = out@;
        let mut i: usize = 0;
        while i < self.entries.len()
            invariant
                i <= self.entries@.len(),
                out@ == mid + concat_map(self.entries@.subrange(0, i as int), entry_enc_fn()),
            decreases self.entries@.len() - i,
        {
            proof {
                lemma_concat_map_push(self.entries@.subrange(0, i as int), self.entries@[i as int], entry_enc_fn());
                assert(self.entries@.subrange(0, i as int).push(self.entries@[i as int]) =~= self.entries@.subrange(
                    0,
                    i + 1,
                ));
            }
            self.entries[i].push_wire(out);
            i = i + 1;
            assert(out@ =~= mid + concat_map(self.entries@.subrange(0, i as int), entry_enc_fn()));
        }
        assert(self.entries@.subrange(0, i as int) =~= self.entries@);
        assert(out@ =~= start + self.wire());
    }
}

/// Parses extended event linkage info from the front of `bytes`, returning it
/// and the number of bytes it spans.
fn parse_extended_event_linkage(bytes: &[u8]) -> (r: Result<(ExtendedEventLinkageInfo, usize), Error>)
    ensures
        r is Ok <==> ExtendedEventLinkageInfo::bytes_ok(bytes@),
        r matches Ok((x, n)) ==> x.decodes(bytes@) && n == 1 + bytes@[0],
        r matches Err(e) ==> if bytes@.len() >= 1 && bytes@.len() < 1 + bytes@[0] {
            is_too_short(e, 1 + bytes@[0], bytes@.len() as int)
        } else {
            is_invalid(e, TAG)
        },
{
    if bytes.len() < 1 {
        return Err(
            Error::InvalidDescriptor { tag: TAG, reason: "extended event linkage info needs at least loop_length byte" },
        );
    }
    let loop_length = bytes[0] as usize;
    let loop_end = 1 + loop_length;
    if bytes.len() < loop_end {
        return Err(Error::BufferTooShort { need: loop_end, have: bytes.len(), what: "extended event linkage info loop" });
    }
    let ghost b = ExtendedEventLinkageInfo::loop_bytes(bytes@);
    proof {
        lemma_entry_len_stable();
        assert(b.subrange(0, 0) =~= Seq::<u8>::empty());
        assert(b.subrange(0, b.len() as int) =~= b);
    }
    let mut entries: Vec<ExtendedEventLinkageEntry> = Vec::new();
    let mut pos: usize = 1;
    while pos < loop_end
        invariant
            1 <= pos <= loop_end,
            loop_end == 1 + bytes@[0],
            loop_end <= bytes.len(),
            b == ExtendedEventLinkageInfo::loop_bytes(bytes@),
            len_stable(entry_len_fn()),
            run_ok(b, entry_len_fn()) == run_ok(b.subrange(pos - 1, b.len() as int), entry_len_fn()),
            run_decodes(entries@, b.subrange(0, pos - 1), entry_len_fn(), entry_dec_fn()),
        decreases loop_end - pos,
    {
        proof {
            assert(b.subrange(pos - 1, b.len() as int) =~= bytes@.subrange(pos as int, loop_end as int));
        }
        let (e, end) = parse_extended_entry(bytes, pos, loop_end)?;
        proof {
            lemma_run_step(b, pos - 1, entry_len_fn());
            let et = b.subrange(pos - 1, end - 1);
            assert(et =~= bytes@.subrange(pos as int, end as int));
            lemma_run_push(entries@, b.subrange(0, pos - 1), e, et, entry_len_fn(), entry_dec_fn());
            assert(b.subrange(0, pos - 1) + et =~= b.subrange(0, end - 1));
        }
        entries.push(e);
        pos = end;
    }
    proof {
        assert(b.subrange(0, pos - 1) =~= b);
    }
    Ok((ExtendedEventLinkageInfo { entries }, loop_end))
}


// ---------------------------------------------------------------------------
// The descriptor
// ---------------------------------------------------------------------------

/// Linkage types 0x0E..=0x1F carry extended event linkage info.
pub open spec fn is_extended_type(lt: u8) -> bool {
    0x0E <= lt <= 0x1F
}

/// Linkage types whose tail is kept raw: conditional blocks defined outside
/// EN 300 468 (0x09..=0x0C, 0x20, 0x21) and user-defined types (0x80..=0xFE).
pub open spec fn is_other_type(lt: u8) -> bool {
    lt == 0x09 || lt == 0x0A || lt == 0x0B || lt == 0x0C || lt == 0x20 || lt == 0x21 || (0x80 <= lt && lt <= 0xFE)
}

/// Linkage types with neither an EN 300 468 conditional block nor a raw tail.
pub open spec fn is_plain_type(lt: u8) -> bool {
    lt != 0x08 && lt != 0x0D && !is_extended_type(lt) && !is_other_type(lt)
}

fn is_other_linkage_type(lt: u8) -> (b: bool)
    ensures
        b == is_other_type(lt),
{
    lt == 0x09 || lt == 0x0A || lt == 0x0B || lt == 0x0C || lt == 0x20 || lt == 0x21 || (0x80 <= lt && lt <= 0xFE)
}

/// Linkage-type-conditional inner data.
///
/// `NoData` covers the linkage types without a conditional block (their tail
/// is `private_data`); `Other` keeps the raw tail of the types whose block is
/// defined outside EN 300 468 or by the user, where the block and the
/// `private_data_byte` loop cannot be told apart.
#[derive(Debug, Clone, PartialEq, Eq)]
#[non_exhaustive]
pub enum LinkageData<'a> {
    /// `linkage_type == 0x08` — mobile hand-over info.
    MobileHandOver(MobileHandOverInfo),
    /// `linkage_type == 0x0D` — event linkage info.
    EventLinkage(EventLinkageInfo),
    /// `linkage_type 0x0E..=0x1F` — extended event linkage info.
    ExtendedEventLinkage(ExtendedEventLinkageInfo),
    /// No conditional block — `private_data` starts right after the fixed fields.
    NoData,
    /// Raw tail for linkage types with externally-defined or user-defined
    /// conditional structure; `private_data` is then empty.
    Other(&'a [u8]),
}

impl<'a> LinkageData<'a> {
    /// The conditional block bytes.
    pub open spec fn wire(&self) -> Seq<u8> {
        match *self {
            LinkageData::MobileHandOver(m) => m.wire(),
            LinkageData::EventLinkage(e) => e.wire(),
            LinkageData::ExtendedEventLinkage(x) => x.wire(),
            LinkageData::NoData => Seq::empty(),
            LinkageData::Other(b) => b@,
        }
    }

    fn serialized_len(&self) -> (n: usize)
        requires
            self.wire().len() <= usize::MAX,
        ensures
            n == self.wire().len(),
    {
        match self {
            LinkageData::MobileHandOver(m) => m.serialized_len(),
            LinkageData::EventLinkage(_) => EVENT_LINKAGE_LEN,
            LinkageData::ExtendedEventLinkage(x) => x.serialized_len(),
            LinkageData::NoData => 0,
            LinkageData::Other(b) => b.len(),
        }
    }

    /// Appends the conditional block bytes.
    fn push_wire(&self, out: &mut Vec<u8>)
        requires
            self.wire().len() <= usize::MAX,
        ensures
            final(out)@ == old(out)@ + self.wire(),
    {
        match self {
            LinkageData::MobileHandOver(m) => m.push_wire(out),
            LinkageData::EventLinkage(e) => e.push_wire(out),
            LinkageData::ExtendedEventLinkage(x) => x.push_wire(out),
            LinkageData::NoData => {
                assert(out@ =~= old(out)@ + self.wire());
            },
            LinkageData::Other(b) => push_bytes(out, b),
        }
    }
}

/// The bytes after the seven fixed fields of the body `b`.
pub open spec fn tail_of(b: Seq<u8>) -> Seq<u8> {
    b.subrange(7, b.len() as int)
}

/// The conditional block of `linkage_type` `lt` fits the tail `t`.
pub open spec fn tail_ok(lt: u8, t: Seq<u8>) -> bool {
    if lt == 0x08 {
        t.len() >= 1 && t.len() >= mho_len(t[0])
    } else if lt == 0x0D {
        t.len() >= 3
    } else if is_extended_type(lt) {
        ExtendedEventLinkageInfo::bytes_ok(t)
    } else {
        true
    }
}

/// Linkage Descriptor.
#[derive(Debug, Clone, PartialEq, Eq)]
pub struct LinkageDescriptor<'a> {
    /// transport_stream_id of the linked-to TS.
    pub transport_stream_id: u16,
    /// original_network_id of the linked-to TS.
    pub original_network_id: u16,
    /// service_id of the linked-to service (0 if linkage is at the network or
    /// bouquet level).
    pub service_id: u16,
    /// linkage_type byte: 0x01 information, 0x02 EPG, 0x03 CA_replacement,
    /// 0x04 TS_containing_complete_SI, 0x05 service_replacement,
    /// 0x06 data_broadcast, 0x07 RCS_map, 0x08 mobile_hand-over, 0x09 SSU,
    /// 0x0A SSU BAT/NIT, 0x0B IP/MAC notification, 0x0C INT BAT/NIT,
    /// 0x0D event_linkage, 0x0E..=0x1F extended_event_linkage,
    /// 0x20 downloadable font, 0x21 Native IP bootstrap, 0x80..=0xFE user defined.
    pub linkage_type: u8,
    /// Linkage-type-conditional inner structure.
    pub linkage_data: LinkageData<'a>,
    /// Trailing `private_data_byte` run — bytes after the conditional block
    /// (if any).  Empty when `linkage_data` is `Other`.
    pub private_data: &'a [u8],
}

impl<'a> LinkageDescriptor<'a> {
    /// Parsing succeeds on exactly these bytes.
    pub open spec fn bytes_ok(s: Seq<u8>) -> bool {
        header_ok(s, TAG) && s[1] >= 7 && tail_ok(body_of(s)[6], tail_of(body_of(s)))
    }

    /// The error reported for bytes that do not parse: an extended event
    /// linkage loop running past the body reports its end against the tail
    /// length; every other failure past the header is `InvalidDescriptor`.
    pub open spec fn bytes_error(e: Error, s: Seq<u8>) -> bool {
        if !header_ok(s, TAG) {
            header_error(e, s, TAG)
        } else {
            let b = body_of(s);
            let t = tail_of(b);
            if s[1] >= 7 && is_extended_type(b[6]) && t.len() >= 1 && t.len() < 1 + t[0] {
                is_too_short(e, 1 + t[0], t.len() as int)
            } else {
                is_invalid(e, TAG)
            }
        }
    }

    /// `self` is what parsing the body `b` yields.
    pub open spec fn decodes(&self, b: Seq<u8>) -> bool {
        let t = tail_of(b);
        &&& self.transport_stream_id == be16(b, 0)
        &&& self.original_network_id == be16(b, 2)
        &&& self.service_id == be16(b, 4)
        &&& self.linkage_type == b[6]
        &&& match self.linkage_data {
            LinkageData::MobileHandOver(m) => {
                &&& b[6] == 0x08
                &&& m.decodes(t)
                &&& self.private_data@ == t.subrange(mho_len(t[0]), t.len() as int)
            },
            LinkageData::EventLinkage(e) => {
                &&& b[6] == 0x0D
                &&& e.decodes(t)
                &&& self.private_data@ == t.subrange(3, t.len() as int)
            },
            LinkageData::ExtendedEventLinkage(x) => {
                &&& is_extended_type(b[6])
                &&& x.decodes(t)
                &&& self.private_data@ == t.subrange(1 + t[0], t.len() as int)
            },
            LinkageData::Other(o) => is_other_type(b[6]) && o@ == t && self.private_data@.len() == 0,
            LinkageData::NoData => is_plain_type(b[6]) && self.private_data@ == t,
        }
    }

    /// The body bytes.
    pub open spec fn body_bytes(&self) -> Seq<u8> {
        u16_bytes(self.transport_stream_id) + u16_bytes(self.original_network_id) + u16_bytes(self.service_id)
            + seq![self.linkage_type] + self.linkage_data.wire() + self.private_data@
    }

    /// The complete wire encoding; the length byte holds the body length modulo 256.
    pub open spec fn wire(&self) -> Seq<u8> {
        framed(TAG, self.body_bytes())
    }

    /// The conditional data is the one `linkage_type` selects and is itself
    /// well formed, a raw tail has no private data after it, and the body fits
    /// its length byte.
    pub open spec fn wf(&self) -> bool {
        &&& match self.linkage_data {
            LinkageData::MobileHandOver(m) => self.linkage_type == 0x08 && m.wf(),
            LinkageData::EventLinkage(_) => self.linkage_type == 0x0D,
            LinkageData::ExtendedEventLinkage(x) => is_extended_type(self.linkage_type) && x.wf(),
            LinkageData::Other(_) => is_other_type(self.linkage_type) && self.private_data@.len() == 0,
            LinkageData::NoData => is_plain_type(self.linkage_type),
        }
        &&& self.body_bytes().len() <= 255
    }

    /// The reserved bits of the conditional block of `s` are all ones.
    pub open spec fn canonical(s: Seq<u8>) -> bool {
        let b = body_of(s);
        let t = tail_of(b);
        &&& b[6] == 0x08 ==> (t[0] / 2) % 8 == 7
        &&& b[6] == 0x0D ==> t[2] % 64 == 63
    }

    /// Parses a linkage descriptor from the front of `bytes`.
    pub fn parse(bytes: &'a [u8]) -> (r: Result<Self, Error>)
        ensures
            r is Ok <==> Self::bytes_ok(bytes@),
            r matches Ok(d) ==> d.decodes(body_of(bytes@)),
            r matches Err(e) ==> Self::bytes_error(e, bytes@),
    {
        let body = descriptor_body(bytes, TAG, "LinkageDescriptor", "unexpected tag for linkage_descriptor")?;
        if body.len() < FIXED_FIELDS_LEN {
            return Err(
                Error::InvalidDescriptor { tag: TAG, reason: "linkage_descriptor body shorter than minimum 7 bytes" },
            );
        }
        let transport_stream_id = read_u16(body, 0);
        let original_network_id = read_u16(body, 2);
        let service_id = read_u16(body, 4);
        let linkage_type = body[6];
        let tail = &body[FIXED_FIELDS_LEN..body.len()];
        let tail_len = tail.len();
        assert(tail@ =~= tail_of(body@));
        let (linkage_data, private_data) = if linkage_type == 0x08 {
            let info = parse_mobile_handover(tail, tail_len)?;
            let consumed = info.serialized_len();
            (LinkageData::MobileHandOver(info), &tail[consumed..tail_len])
        } else if linkage_type == 0x0D {
            let info = parse_event_linkage(tail)?;
            (LinkageData::EventLinkage(info), &tail[EVENT_LINKAGE_LEN..tail_len])
        } else if 0x0E <= linkage_type && linkage_type <= 0x1F {
            let (info, consumed) = parse_extended_event_linkage(tail)?;
            (LinkageData::ExtendedEventLinkage(info), &tail[consumed..tail_len])
        } else if is_other_linkage_type(linkage_type) {
            (LinkageData::Other(tail), &tail[tail_len..tail_len])
        } else {
            (LinkageData::NoData, tail)
        };
        Ok(
            LinkageDescriptor {
                transport_stream_id,
                original_network_id,
                service_id,
                linkage_type,
                linkage_data,
                private_data,
            },
        )
    }

    /// Length of the wire encoding.
    pub fn serialized_len(&self) -> (n: usize)
        requires
            self.wire().len() <= usize::MAX,
        ensures
            n == self.wire().len(),
    {
        HEADER_LEN + FIXED_FIELDS_LEN + self.linkage_data.serialized_len() + self.private_data.len()
    }

    fn encode(&self) -> (v: Vec<u8>)
        requires
            self.wire().len() <= usize::MAX,
        ensures
            v@ == self.wire(),
    {
        let len = self.serialized_len();
        let mut v: Vec<u8> = Vec::new();
        push_u8(&mut v, TAG);
        push_u8(&mut v, ((len - HEADER_LEN) % 256) as u8);
        push_u16(&mut v, self.transport_stream_id);
        push_u16(&mut v, self.original_network_id);
        push_u16(&mut v, self.service_id);
        push_u8(&mut v, self.linkage_type);
        self.linkage_data.push_wire(&mut v);
        push_bytes(&mut v, self.private_data);
        assert(v@ =~= self.wire());
        v
    }

    /// Writes the descriptor to the front of `buf`. The length byte is the
    /// body length truncated to 8 bits.
    pub fn serialize_into(&self, buf: &mut [u8]) -> (r: Result<usize, Error>)
        requires
            self.wire().len() <= usize::MAX,
        ensures
            emitted(r, old(buf)@, final(buf)@, self.wire()),
    {
        let len = self.serialized_len();
        if buf.len() < len {
            return Err(Error::OutputBufferTooSmall { need: len, have: buf.len() });
        }
        let v = self.encode();
        copy_to_front(buf, &v);
        Ok(len)
    }
}


// ---------------------------------------------------------------------------
// Round trips
// ---------------------------------------------------------------------------

proof fn lemma_mho_encode_parse(m: MobileHandOverInfo, r: Seq<u8>)
    requires
        m.wf(),
    ensures
        ({
            let t = m.wire() + r;
            &&& t.len() >= 1
            &&& mho_len(t[0]) == m.wire().len()
            &&& m.decodes(t)
            &&& (t[0] / 2) % 8 == 7
        }),
{
    let t = m.wire() + r;
    let f = m.flags_byte();
    assert(t[0] == f);
    assert(f / 16 == m.hand_over_type);
    if let Some(v) = m.network_id {
        lemma_be16_of_bytes(v);
        assert(be16(t, 1) == be16(u16_bytes(v), 0));
        if let Some(w) = m.initial_service_id {
            lemma_be16_of_bytes(w);
            assert(be16(t, 3) == be16(u16_bytes(w), 0));
        }
    } else if let Some(w) = m.initial_service_id {
        lemma_be16_of_bytes(w);
        assert(be16(t, 1) == be16(u16_bytes(w), 0));
    }
}

proof fn lemma_mho_parse_encode(m: MobileHandOverInfo, t: Seq<u8>)
    requires
        t.len() >= 1,
        t.len() >= mho_len(t[0]),
        m.decodes(t),
        (t[0] / 2) % 8 == 7,
    ensures
        m.wire() == t.subrange(0, mho_len(t[0])),
        m.wf(),
{
    let f = t[0];
    assert(m.flags_byte() == f);
    if has_network_id((f / 16) as int) {
        lemma_bytes_of_be16(t, 1);
        if f % 2 == 0 {
            lemma_bytes_of_be16(t, 3);
        }
    } else if f % 2 == 0 {
        lemma_bytes_of_be16(t, 1);
    }
    assert(m.wire() =~= t.subrange(0, mho_len(t[0])));
}

proof fn lemma_event_encode_parse(e: EventLinkageInfo, r: Seq<u8>)
    ensures
        ({
            let t = e.wire() + r;
            &&& t.len() >= 3
            &&& e.decodes(t)
            &&& t[2] % 64 == 63
        }),
{
    let t = e.wire() + r;
    lemma_be16_of_bytes(e.target_event_id);
    assert(be16(t, 0) == be16(u16_bytes(e.target_event_id), 0));
    assert(t[2] == e.flags_byte());
}

proof fn lemma_event_parse_encode(e: EventLinkageInfo, t: Seq<u8>)
    requires
        t.len() >= 3,
        e.decodes(t),
        t[2] % 64 == 63,
    ensures
        e.wire() == t.subrange(0, 3),
{
    lemma_bytes_of_be16(t, 0);
    assert(e.flags_byte() == t[2]);
    assert(e.wire() =~= t.subrange(0, 3));
}

/// The six fields of an entry flags byte and the byte determine each other.
proof fn lemma_entry_flag_fields(f: u8, a: bool, b: bool, c: u8, d: u8, e: bool, g: bool)
    by (bit_vector)
    ensures
        (c < 4 && d < 4 && f == (if a {
            128u8
        } else {
            0u8
        }) + (if b {
            64u8
        } else {
            0u8
        }) + c * 16 + d * 4 + (if e {
            2u8
        } else {
            0u8
        }) + (if g {
            1u8
        } else {
            0u8
        })) <==> (a == (f >= 128) && b == ((f / 64) % 2 == 1) && c == (f / 16) % 4 && d == (f / 4) % 4 && e == ((f
            / 2) % 2 == 1) && g == (f % 2 == 1)),
{
}

proof fn lemma_entry_flags(e: ExtendedEventLinkageEntry, f: u8)
    ensures
        e.link_type < 4 && e.target_id_type < 4 && f == e.flags_byte() ==> {
            &&& e.target_listed == (f >= 128)
            &&& e.event_simulcast == ((f / 64) % 2 == 1)
            &&& e.link_type == (f / 16) % 4
            &&& e.target_id_type == tid_type_of(f)
            &&& e.original_network_id_flag == ((f / 2) % 2 == 1)
            &&& e.service_id_flag == (f % 2 == 1)
        },
        ({
            &&& e.target_listed == (f >= 128)
            &&& e.event_simulcast == ((f / 64) % 2 == 1)
            &&& e.link_type == (f / 16) % 4
            &&& e.target_id_type == tid_type_of(f)
            &&& e.original_network_id_flag == ((f / 2) % 2 == 1)
            &&& e.service_id_flag == (f % 2 == 1)
        }) ==> e.flags_byte() == f,
{
    lemma_entry_flag_fields(
        f,
        e.target_listed,
        e.event_simulcast,
        e.link_type,
        e.target_id_type,
        e.original_network_id_flag,
        e.service_id_flag,
    );
}

proof fn lemma_entry_encode_parse(e: ExtendedEventLinkageEntry)
    requires
        e.wf(),
    ensures
        0 < entry_len(e.wire()) == e.wire().len(),
        entry_dec_fn()(e, e.wire()),
{
    let w = e.wire();
    let f = e.flags_byte();
    lemma_entry_flags(e, f);
    assert(w[2] == f);
    lemma_be16_of_bytes(e.target_event_id);
    assert(be16(w, 0) == be16(u16_bytes(e.target_event_id), 0));
    match e.target_id {
        TargetId::UserDefined { user_defined_id } => {
            lemma_be16_of_bytes(user_defined_id);
            assert(be16(w, 3) == be16(u16_bytes(user_defined_id), 0));
        },
        TargetId::Dvb { target_transport_stream_id, target_original_network_id, target_service_id, .. } => {
            let a = opt16(target_transport_stream_id);
            let b = opt16(target_original_network_id);
            let c = opt16(target_service_id);
            assert(w == u16_bytes(e.target_event_id) + seq![f] + (a + b + c));
            if let Some(v) = target_transport_stream_id {
                lemma_be16_of_bytes(v);
                assert(be16(w, 3) == be16(u16_bytes(v), 0));
            }
            if let Some(v) = target_original_network_id {
                lemma_be16_of_bytes(v);
                assert(be16(w, 3 + a.len() as int) == be16(u16_bytes(v), 0));
            }
            if let Some(v) = target_service_id {
                lemma_be16_of_bytes(v);
                assert(be16(w, 3 + a.len() as int + b.len() as int) == be16(u16_bytes(v), 0));
            }
        },
    }
}

proof fn lemma_entry_parse_encode(e: ExtendedEventLinkageEntry, t: Seq<u8>)
    requires
        entry_dec_fn()(e, t),
    ensures
        e.wire() == t,
        e.wf(),
{
    let f = t[2];
    lemma_entry_flags(e, f);
    lemma_bytes_of_be16(t, 0);
    if tid_type_of(f) == 3 {
        lemma_bytes_of_be16(t, 3);
    } else {
        let ts_end: int = if tid_type_of(f) == 1 {
            5
        } else {
            3
        };
        let onid_end: int = ts_end + if (f / 2) % 2 == 1 {
            2int
        } else {
            0int
        };
        if tid_type_of(f) == 1 {
            lemma_bytes_of_be16(t, 3);
        }
        if (f / 2) % 2 == 1 {
            lemma_bytes_of_be16(t, ts_end);
        }
        if f % 2 == 1 {
            lemma_bytes_of_be16(t, onid_end);
        }
    }
    assert(e.wire() =~= t);
}

proof fn lemma_ext_encode_parse(x: ExtendedEventLinkageInfo, r: Seq<u8>)
    requires
        x.wf(),
    ensures
        ({
            let t = x.wire() + r;
            &&& ExtendedEventLinkageInfo::bytes_ok(t)
            &&& x.decodes(t)
            &&& 1 + t[0] == x.wire().len()
        }),
{
    lemma_entry_len_stable();
    let es = x.entries@;
    assert forall|i: int| 0 <= i < es.len() implies 0 < entry_len_fn()(#[trigger] entry_enc_fn()(es[i]))
        == entry_enc_fn()(es[i]).len() && entry_dec_fn()(es[i], entry_enc_fn()(es[i])) by {
        assert(es[i].wf());
        lemma_entry_encode_parse(es[i]);
    }
    lemma_run_of_encoded(es, entry_len_fn(), entry_dec_fn(), entry_enc_fn());
    let t = x.wire() + r;
    assert(ExtendedEventLinkageInfo::loop_bytes(t) =~= x.loop_wire());
}

proof fn lemma_ext_parse_encode(x: ExtendedEventLinkageInfo, t: Seq<u8>)
    requires
        ExtendedEventLinkageInfo::bytes_ok(t),
        x.decodes(t),
    ensures
        x.wire() == t.subrange(0, 1 + t[0]),
        x.wf(),
{
    let b = ExtendedEventLinkageInfo::loop_bytes(t);
    assert forall|e: ExtendedEventLinkageEntry, u: Seq<u8>| #[trigger] entry_dec_fn()(e, u) && entry_canon_fn()(
        u,
    ) implies entry_enc_fn()(e) == u && entry_good_fn()(e) by {
        lemma_entry_parse_encode(e, u);
    }
    lemma_entry_run_all_true(b);
    lemma_run_reencodes(x.entries@, b, entry_len_fn(), entry_dec_fn(), entry_enc_fn(), entry_canon_fn(), entry_good_fn());
    assert forall|i: int| 0 <= i < x.entries@.len() implies #[trigger] x.entries@[i].wf() by {
        assert(entry_good_fn()(x.entries@[i]));
    }
    assert(x.wire() =~= t.subrange(0, 1 + t[0]));
}

/// Every entry of a loop that splits satisfies the trivial property.
proof fn lemma_entry_run_all_true(s: Seq<u8>)
    requires
        run_ok(s, entry_len_fn()),
    ensures
        run_all(s, entry_len_fn(), entry_canon_fn()),
    decreases s.len(),
{
    if s.len() > 0 {
        let l = entry_len_fn()(s);
        lemma_entry_run_all_true(s.subrange(l, s.len() as int));
    }
}

proof fn lemma_fixed_fields(d: LinkageDescriptor)
    ensures
        ({
            let b = d.body_bytes();
            &&& b.len() >= 7
            &&& be16(b, 0) == d.transport_stream_id
            &&& be16(b, 2) == d.original_network_id
            &&& be16(b, 4) == d.service_id
            &&& b[6] == d.linkage_type
            &&& tail_of(b) == d.linkage_data.wire() + d.private_data@
        }),
{
    let b = d.body_bytes();
    lemma_be16_of_bytes(d.transport_stream_id);
    lemma_be16_of_bytes(d.original_network_id);
    lemma_be16_of_bytes(d.service_id);
    assert(be16(b, 0) == be16(u16_bytes(d.transport_stream_id), 0));
    assert(be16(b, 2) == be16(u16_bytes(d.original_network_id), 0));
    assert(be16(b, 4) == be16(u16_bytes(d.service_id), 0));
    assert(tail_of(b) =~= d.linkage_data.wire() + d.private_data@);
}

/// Encoding a well-formed linkage descriptor and parsing the bytes gives it back.
pub proof fn lemma_linkage_encode_parse(d: LinkageDescriptor)
    requires
        d.wf(),
    ensures
        LinkageDescriptor::bytes_ok(d.wire()),
        d.decodes(body_of(d.wire())),
        LinkageDescriptor::canonical(d.wire()),
{
    let b = d.body_bytes();
    lemma_framed_parses(TAG, b);
    lemma_fixed_fields(d);
    let t = tail_of(b);
    let p = d.private_data@;
    match d.linkage_data {
        LinkageData::MobileHandOver(m) => {
            lemma_mho_encode_parse(m, p);
            assert(t.subrange(mho_len(t[0]), t.len() as int) =~= p);
        },
        LinkageData::EventLinkage(e) => {
            lemma_event_encode_parse(e, p);
            assert(t.subrange(3, t.len() as int) =~= p);
        },
        LinkageData::ExtendedEventLinkage(x) => {
            lemma_ext_encode_parse(x, p);
            assert(t.subrange(1 + t[0], t.len() as int) =~= p);
        },
        LinkageData::Other(o) => {
            assert(t =~= o@);
        },
        LinkageData::NoData => {
            assert(t =~= p);
        },
    }
}

/// Parsing a linkage descriptor whose reserved bits are all ones and encoding
/// the result gives back its bytes.
pub proof fn lemma_linkage_parse_encode(s: Seq<u8>, d: LinkageDescriptor)
    requires
        LinkageDescriptor::bytes_ok(s),
        LinkageDescriptor::canonical(s),
        d.decodes(body_of(s)),
    ensures
        d.wire() == framed_prefix(s),
        d.wf(),
{
    let b = body_of(s);
    let t = tail_of(b);
    lemma_reframe(s, TAG);
    lemma_bytes_of_be16(b, 0);
    lemma_bytes_of_be16(b, 2);
    lemma_bytes_of_be16(b, 4);
    match d.linkage_data {
        LinkageData::MobileHandOver(m) => {
            lemma_mho_parse_encode(m, t);
            assert(t =~= t.subrange(0, mho_len(t[0])) + t.subrange(mho_len(t[0]), t.len() as int));
        },
        LinkageData::EventLinkage(e) => {
            lemma_event_parse_encode(e, t);
            assert(t =~= t.subrange(0, 3) + t.subrange(3, t.len() as int));
        },
        LinkageData::ExtendedEventLinkage(x) => {
            lemma_ext_parse_encode(x, t);
            assert(t =~= t.subrange(0, 1 + t[0]) + t.subrange(1 + t[0], t.len() as int));
        },
        LinkageData::Other(o) => {
            assert(d.private_data@ =~= Seq::<u8>::empty());
        },
        LinkageData::NoData => {},
    }
    assert(d.body_bytes() =~= b);
}

/// A parsed LinkageDescriptor is well formed: it encodes again, and parsing that encoding
/// yields it back.
pub proof fn lemma_linkage_reparse(s: Seq<u8>, d: LinkageDescriptor)
    requires
        LinkageDescriptor::bytes_ok(s),
        d.decodes(body_of(s)),
    ensures
        d.wf(),
        LinkageDescriptor::bytes_ok(d.wire()),
        d.decodes(body_of(d.wire())),
{
    let b = body_of(s);
    let t = tail_of(b);
    lemma_reframe(s, TAG);
    match d.linkage_data {
        LinkageData::ExtendedEventLinkage(x) => {
            lemma_ext_parse_encode(x, t);
        },
        _ => {},
    }
    lemma_linkage_encode_parse(d);
}

/// The block that follows the fixed fields of a parsed linkage descriptor, chosen
/// by the literal linkage_type codes of EN 300 468: 0x08 mobile hand-over info,
/// 0x0D event linkage info, 0x0E-0x1F extended event linkage info; the raw tail
/// kept for 0x09-0x0C, 0x20, 0x21 and 0x80-0xFE; nothing for the other types.
pub proof fn lemma_linkage_type_codes(b: Seq<u8>, d: LinkageDescriptor)
    requires
        d.decodes(b),
    ensures
        b[6] == 0x08 ==> d.linkage_data is MobileHandOver,
        b[6] == 0x0D ==> d.linkage_data is EventLinkage,
        0x0E <= b[6] <= 0x1F ==> d.linkage_data is ExtendedEventLinkage,
        (b[6] == 0x09 || b[6] == 0x0A || b[6] == 0x0B || b[6] == 0x0C || b[6] == 0x20 || b[6] == 0x21 || 0x80 <= b[6] <= 0xFE) ==> d.linkage_data is Other,
        (b[6] <= 0x07 || (0x22 <= b[6] <= 0x7F) || b[6] == 0xFF) ==> d.linkage_data is NoData,
{
}

} // verus!
