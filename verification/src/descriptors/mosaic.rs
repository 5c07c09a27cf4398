//! Mosaic Descriptor — ETSI EN 300 468 §6.2.21 (tag 0x51).
//!
//! Describes a mosaic service: a grid of elementary cells, each logical cell
//! grouping one or more elementary cells and optionally linking to a bouquet,
//! service or event.
//!
//! Wire layout:
//!   grid byte: mosaic_entry_point(1) | num_horizontal_cells(3)
//!              | reserved(1) | num_vertical_cells(3)
//!   for each logical cell:
//!     2 bytes: logical_cell_id(6) | reserved(7) | logical_cell_presentation_info(3)
//!     elementary_cell_field_length(8)
//!     elementary_cell_field_length × { reserved(2) | elementary_cell_id(6) }
//!     cell_linkage_info(8)
//!     conditional linkage payload (see [`CellLinkage`])
//!
//! Reserved bits are ignored on parse and written as ones.

use super::{
    body_of, descriptor_body, emitted_capped, framed, framed_prefix, header_error, header_ok, lemma_framed_parses,
    lemma_reframe, HEADER_LEN,
};
use crate::error::{is_invalid, Error};
use crate::runs::{
    lemma_run_of_encoded, lemma_run_push, lemma_run_decodes_same, lemma_run_reencodes, lemma_run_relength, lemma_run_step, len_stable, run_all, run_decodes,
    run_ok,
};
use crate::wire::{
    be16, concat_map, copy_to_front, lemma_be16_of_bytes, lemma_bytes_of_be16, lemma_concat_map_prefix_len,
    lemma_concat_map_push, push_u16, push_u8, read_u16, u16_bytes,
};
use vstd::prelude::*;

verus! {

/// Descriptor tag for mosaic_descriptor.
pub const TAG: u8 = 0x51;

/// Length of the grid byte that opens the body.
const GRID_HEADER_LEN: usize = 1;

/// The two id/presentation bytes and elementary_cell_field_length of a cell.
const CELL_FIXED_LEN: usize = 3;

/// Largest body the 8-bit descriptor_length can declare.
const MAX_BODY_LEN: usize = 255;

/// Conditional linkage payload selected by `cell_linkage_info`.
#[derive(Debug, Clone, Copy, PartialEq, Eq)]
pub enum CellLinkage {
    /// 0x00 — undefined (no payload).
    Undefined,
    /// 0x01 — bouquet related.
    Bouquet {
        /// Linked bouquet_id.
        bouquet_id: u16,
    },
    /// 0x02 — service related.
    Service {
        /// Linked original_network_id.
        original_network_id: u16,
        /// Linked transport_stream_id.
        transport_stream_id: u16,
        /// Linked service_id.
        service_id: u16,
    },
    /// 0x03 — other mosaic related.
    OtherMosaic {
        /// Linked original_network_id.
        original_network_id: u16,
        /// Linked transport_stream_id.
        transport_stream_id: u16,
        /// Linked service_id.
        service_id: u16,
    },
    /// 0x04 — event related.
    Event {
        /// Linked original_network_id.
        original_network_id: u16,
        /// Linked transport_stream_id.
        transport_stream_id: u16,
        /// Linked service_id.
        service_id: u16,
        /// Linked event_id.
        event_id: u16,
    },
    /// 0x05..=0xFF — reserved; the raw byte is kept (no payload follows it).
    Reserved {
        /// The raw cell_linkage_info byte.
        value: u8,
    },
}

/// Size of the payload that follows the cell_linkage_info byte `info`.
pub open spec fn linkage_payload_len(info: u8) -> int {
    if info == 1 {
        2
    } else if info == 2 || info == 3 {
        6
    } else if info == 4 {
        8
    } else {
        0
    }
}

impl CellLinkage {
    /// The cell_linkage_info byte written for this linkage.
    pub open spec fn spec_info(&self) -> u8 {
        match *self {
            CellLinkage::Undefined => 0,
            CellLinkage::Bouquet { .. } => 1,
            CellLinkage::Service { .. } => 2,
            CellLinkage::OtherMosaic { .. } => 3,
            CellLinkage::Event { .. } => 4,
            CellLinkage::Reserved { value } => value,
        }
    }

    /// The payload bytes written after the info byte.
    pub open spec fn payload_wire(&self) -> Seq<u8> {
        match *self {
            CellLinkage::Bouquet { bouquet_id } => u16_bytes(bouquet_id),
            CellLinkage::Service { original_network_id, transport_stream_id, service_id } => u16_bytes(
                original_network_id,
            ) + u16_bytes(transport_stream_id) + u16_bytes(service_id),
            CellLinkage::OtherMosaic { original_network_id, transport_stream_id, service_id } => u16_bytes(
                original_network_id,
            ) + u16_bytes(transport_stream_id) + u16_bytes(service_id),
            CellLinkage::Event { original_network_id, transport_stream_id, service_id, event_id } => u16_bytes(
                original_network_id,
            ) + u16_bytes(transport_stream_id) + u16_bytes(service_id) + u16_bytes(event_id),
            _ => Seq::empty(),
        }
    }

    /// `self` is what the info byte `info` and the payload `p` that follows it decode to.
    pub open spec fn decodes(&self, info: u8, p: Seq<u8>) -> bool {
        &&& p.len() == linkage_payload_len(info)
        &&& match *self {
            CellLinkage::Undefined => info == 0,
            CellLinkage::Bouquet { bouquet_id } => info == 1 && bouquet_id == be16(p, 0),
            CellLinkage::Service { original_network_id, transport_stream_id, service_id } => {
                &&& info == 2
                &&& original_network_id == be16(p, 0)
                &&& transport_stream_id == be16(p, 2)
                &&& service_id == be16(p, 4)
            },
            CellLinkage::OtherMosaic { original_network_id, transport_stream_id, service_id } => {
                &&& info == 3
                &&& original_network_id == be16(p, 0)
                &&& transport_stream_id == be16(p, 2)
                &&& service_id == be16(p, 4)
            },
            CellLinkage::Event { original_network_id, transport_stream_id, service_id, event_id } => {
                &&& info == 4
                &&& original_network_id == be16(p, 0)
                &&& transport_stream_id == be16(p, 2)
                &&& service_id == be16(p, 4)
                &&& event_id == be16(p, 6)
            },
            CellLinkage::Reserved { value } => info >= 5 && value == info,
        }
    }

    /// A reserved linkage carries none of the defined codes.
    pub open spec fn wf(&self) -> bool {
        self matches CellLinkage::Reserved { value } ==> value >= 5
    }

    /// The cell_linkage_info byte this variant serializes to.
    fn info_byte(&self) -> (b: u8)
        ensures
            b == self.spec_info(),
    {
        match self {
            CellLinkage::Undefined => 0x00,
            CellLinkage::Bouquet { .. } => 0x01,
            CellLinkage::Service { .. } => 0x02,
            CellLinkage::OtherMosaic { .. } => 0x03,
            CellLinkage::Event { .. } => 0x04,
            CellLinkage::Reserved { value } => *value,
        }
    }

    /// Length of the conditional payload (excluding the info byte).
    fn payload_len(&self) -> (n: usize)
        ensures
            n == self.payload_wire().len(),
            self.wf() ==> n == linkage_payload_len(self.spec_info()),
    {
        match self {
            CellLinkage::Undefined | CellLinkage::Reserved { .. } => 0,
            CellLinkage::Bouquet { .. } => 2,
            CellLinkage::Service { .. } | CellLinkage::OtherMosaic { .. } => 6,
            CellLinkage::Event { .. } => 8,
        }
    }
}

/// Reads the linkage payload for `info` that starts at `body[pos]`.
fn parse_linkage(body: &[u8], pos: usize, info: u8) -> (l: CellLinkage)
    requires
        pos + linkage_payload_len(info) <= body.len(),
    ensures
        l.decodes(info, body@.subrange(pos as int, pos + linkage_payload_len(info))),
{
    let ghost p = body@.subrange(pos as int, pos + linkage_payload_len(info));
    if info == 0x00 {
        CellLinkage::Undefined
    } else if info == 0x01 {
        CellLinkage::Bouquet { bouquet_id: read_u16(body, pos) }
    } else if info == 0x02 || info == 0x03 {
        let original_network_id = read_u16(body, pos);
        let transport_stream_id = read_u16(body, pos + 2);
        let service_id = read_u16(body, pos + 4);
        if info == 0x02 {
            CellLinkage::Service { original_network_id, transport_stream_id, service_id }
        } else {
            CellLinkage::OtherMosaic { original_network_id, transport_stream_id, service_id }
        }
    } else if info == 0x04 {
        CellLinkage::Event {
            original_network_id: read_u16(body, pos),
            transport_stream_id: read_u16(body, pos + 2),
            service_id: read_u16(body, pos + 4),
            event_id: read_u16(body, pos + 6),
        }
    } else {
        CellLinkage::Reserved { value: info }
    }
}

/// One logical cell within the mosaic.
#[derive(Debug, Clone, PartialEq, Eq)]
pub struct MosaicLogicalCell {
    /// 6-bit logical_cell_id.
    pub logical_cell_id: u8,
    /// 3-bit logical_cell_presentation_info: 1 = video, 2 = still picture,
    /// 3 = graphics/text.
    pub presentation_info: u8,
    /// elementary_cell_id values (each 6 bits) composing this logical cell.
    pub elementary_cell_ids: Vec<u8>,
    /// Linkage of this logical cell to a bouquet / service / event.
    pub linkage: CellLinkage,
}

/// Size of the logical cell at the front of `t`; larger than `t` when the
/// cell does not fit.
pub open spec fn cell_len(t: Seq<u8>) -> int {
    if t.len() < 3 {
        4
    } else if t.len() < 4 + t[2] {
        4 + t[2]
    } else {
        4 + t[2] + linkage_payload_len(t[3 + t[2]])
    }
}

pub open spec fn cell_len_fn() -> spec_fn(Seq<u8>) -> int {
    |t: Seq<u8>| cell_len(t)
}

pub open spec fn cell_dec_fn() -> spec_fn(MosaicLogicalCell, Seq<u8>) -> bool {
    |c: MosaicLogicalCell, t: Seq<u8>| t.len() >= 3 && cell_len(t) == t.len() && c.decodes(t)
}

pub open spec fn cell_enc_fn() -> spec_fn(MosaicLogicalCell) -> Seq<u8> {
    |c: MosaicLogicalCell| c.wire()
}

/// The reserved bits of the cell bytes `t` are all ones.
pub open spec fn cell_canonical(t: Seq<u8>) -> bool {
    &&& t[0] % 4 == 3
    &&& t[1] >= 248
    &&& forall|k: int| 3 <= k < 3 + t[2] ==> #[trigger] t[k] >= 192
}

pub open spec fn cell_canon_fn() -> spec_fn(Seq<u8>) -> bool {
    |t: Seq<u8>| cell_canonical(t)
}

pub open spec fn cell_good_fn() -> spec_fn(MosaicLogicalCell) -> bool {
    |c: MosaicLogicalCell| c.wf()
}

pub proof fn lemma_cell_len_stable()
    ensures
        len_stable(cell_len_fn()),
{
    assert forall|a: Seq<u8>, b: Seq<u8>| 0 < cell_len_fn()(a) <= a.len() implies #[trigger] cell_len_fn()(a + b)
        == cell_len_fn()(a) by {
        assert((a + b)[2] == a[2]);
        assert((a + b)[3 + a[2]] == a[3 + a[2]]);
    }
}

/// The elementary cell bytes: reserved bits set over each 6-bit id.
pub open spec fn elem_wire(ids: Seq<u8>) -> Seq<u8> {
    Seq::new(ids.len(), |k: int| (192 + ids[k] % 64) as u8)
}

impl MosaicLogicalCell {
    /// `self` is what parsing the cell bytes `t` yields.
    pub open spec fn decodes(&self, t: Seq<u8>) -> bool {
        &&& self.logical_cell_id == t[0] / 4
        &&& self.presentation_info == t[1] % 8
        &&& self.elementary_cell_ids@.len() == t[2]
        &&& forall|k: int| 0 <= k < t[2] ==> #[trigger] self.elementary_cell_ids@[k] == t[3 + k] % 64
        &&& self.linkage.decodes(t[3 + t[2]], t.subrange(4 + t[2], t.len() as int))
    }

    /// The cell bytes.
    pub open spec fn wire(&self) -> Seq<u8> {
        seq![
            ((self.logical_cell_id % 64) * 4 + 3) as u8,
            (248 + self.presentation_info % 8) as u8,
            (self.elementary_cell_ids@.len() % 256) as u8,
        ] + elem_wire(self.elementary_cell_ids@) + seq![self.linkage.spec_info()] + self.linkage.payload_wire()
    }

    /// Every field fits its wire width.
    pub open spec fn wf(&self) -> bool {
        &&& self.logical_cell_id < 64
        &&& self.presentation_info < 8
        &&& self.elementary_cell_ids@.len() <= 255
        &&& forall|k: int| 0 <= k < self.elementary_cell_ids@.len() ==> #[trigger] self.elementary_cell_ids@[k] < 64
        &&& self.linkage.wf()
    }

    /// `self` and `other` hold the same fields, the elementary cell ids compared
    /// by the ids they hold.
    pub open spec fn agrees(&self, other: &Self) -> bool {
        &&& self.elementary_cell_ids@ == other.elementary_cell_ids@
        &&& *self == (MosaicLogicalCell { elementary_cell_ids: self.elementary_cell_ids, ..*other })
    }
}

/// Parses the logical cell at `body[pos..]`, returning it and the offset after it.
fn parse_cell(body: &[u8], pos: usize) -> (r: Result<(MosaicLogicalCell, usize), Error>)
    requires
        pos < body@.len(),
    ensures
        ({
            let t = body@.subrange(pos as int, body@.len() as int);
            match r {
                Ok((c, end)) => {
                    &&& 0 < cell_len(t) <= t.len()
                    &&& end == pos + cell_len(t)
                    &&& cell_dec_fn()(c, body@.subrange(pos as int, end as int))
                },
                Err(e) => !(0 < cell_len(t) <= t.len()) && is_invalid(e, TAG),
            }
        }),
{
    let ghost t = body@.subrange(pos as int, body@.len() as int);
    if body.len() - pos < CELL_FIXED_LEN {
        return Err(Error::InvalidDescriptor { tag: TAG, reason: "truncated mosaic logical cell header" });
    }
    let b0 = body[pos];
    let b1 = body[pos + 1];
    let n = body[pos + 2] as usize;
    assert(t[2] == n);
    let logical_cell_id = b0 / 4;
    let presentation_info = b1 % 8;
    let start = pos + CELL_FIXED_LEN;
    if body.len() - start < n {
        return Err(
            Error::InvalidDescriptor { tag: TAG, reason: "elementary_cell_field_length exceeds descriptor body" },
        );
    }
    let mut elementary_cell_ids: Vec<u8> = Vec::new();
    let mut k: usize = 0;
    while k < n
        invariant
            start + n <= body.len(),
            k <= n,
            elementary_cell_ids@.len() == k,
            forall|j: int| 0 <= j < k ==> #[trigger] elementary_cell_ids@[j] == body@[start + j] % 64,
        decreases n - k,
    {
        elementary_cell_ids.push(body[start + k] % 64);
        k = k + 1;
    }
    let ipos = start + n;
    if ipos >= body.len() {
        return Err(Error::InvalidDescriptor { tag: TAG, reason: "missing cell_linkage_info byte" });
    }
    let info = body[ipos];
    assert(t[3 + t[2]] == info);
    let ppos = ipos + 1;
    let plen: usize = if info == 0x01 {
        2
    } else if info == 0x02 || info == 0x03 {
        6
    } else if info == 0x04 {
        8
    } else {
        0
    };
    if body.len() - ppos < plen {
        return Err(Error::InvalidDescriptor { tag: TAG, reason: "truncated cell linkage payload" });
    }
    let linkage = parse_linkage(body, ppos, info);
    let end = ppos + plen;
    let c = MosaicLogicalCell { logical_cell_id, presentation_info, elementary_cell_ids, linkage };
    proof {
        let ct = body@.subrange(pos as int, end as int);
        assert(ct[2] == n);
        assert(ct[3 + ct[2]] == info);
        assert(ct.subrange(4 + ct[2], ct.len() as int) =~= body@.subrange(ppos as int, end as int));
        assert forall|j: int| 0 <= j < ct[2] implies #[trigger] c.elementary_cell_ids@[j] == ct[3 + j] % 64 by {
            assert(ct[3 + j] == body@[start + j]);
        }
    }
    Ok((c, end))
}

/// Appends the bytes of one logical cell.
fn push_cell(out: &mut Vec<u8>, c: &MosaicLogicalCell)
    ensures
        final(out)@ == old(out)@ + c.wire(),
{
    let ghost start = out@;
    push_u8(out, (c.logical_cell_id % 64) * 4 + 3);
    push_u8(out, 248 + c.presentation_info % 8);
    let n = c.elementary_cell_ids.len();
    push_u8(out, (n % 256) as u8);
    let ghost mid = out@;
    let ghost ew = elem_wire(c.elementary_cell_ids@);
    let mut k: usize = 0;
    while k < n
        invariant
            n == c.elementary_cell_ids@.len(),
            ew == elem_wire(c.elementary_cell_ids@),
            k <= n,
            out@ == mid + ew.subrange(0, k as int),
        decreases n - k,
    {
        push_u8(out, 192 + c.elementary_cell_ids[k] % 64);
        k = k + 1;
        assert(out@ =~= mid + ew.subrange(0, k as int));
    }
    assert(ew.subrange(0, k as int) =~= ew);
    push_u8(out, c.linkage.info_byte());
    match c.linkage {
        CellLinkage::Bouquet { bouquet_id } => {
            push_u16(out, bouquet_id);
        },
        CellLinkage::Service { original_network_id, transport_stream_id, service_id }
        | CellLinkage::OtherMosaic { original_network_id, transport_stream_id, service_id } => {
            push_u16(out, original_network_id);
            push_u16(out, transport_stream_id);
            push_u16(out, service_id);
        },
        CellLinkage::Event { original_network_id, transport_stream_id, service_id, event_id } => {
            push_u16(out, original_network_id);
            push_u16(out, transport_stream_id);
            push_u16(out, service_id);
            push_u16(out, event_id);
        },
        _ => {},
    }
    assert(out@ =~= start + c.wire());
}

/// Mosaic Descriptor.
#[derive(Debug, Clone, PartialEq, Eq)]
pub struct MosaicDescriptor {
    /// mosaic_entry_point: set when this mosaic is the top of a hierarchy.
    pub mosaic_entry_point: bool,
    /// 3-bit number_of_horizontal_elementary_cells (0 = one cell).
    pub num_horizontal_cells: u8,
    /// 3-bit number_of_vertical_elementary_cells (0 = one cell).
    pub num_vertical_cells: u8,
    /// Logical cells in wire order.
    pub logical_cells: Vec<MosaicLogicalCell>,
}

/// The grid byte for the given fields; its reserved bit is written as one.
pub open spec fn grid_byte(entry_point: bool, h: u8, v: u8) -> u8 {
    ((if entry_point {
        128int
    } else {
        0int
    }) + (h % 8) * 16 + 8 + v % 8) as u8
}

impl MosaicDescriptor {
    /// Parsing succeeds on exactly these bytes.
    pub open spec fn bytes_ok(s: Seq<u8>) -> bool {
        header_ok(s, TAG) && s[1] >= 1 && run_ok(Self::loop_bytes(body_of(s)), cell_len_fn())
    }

    /// The logical cell loop of the body `b`.
    pub open spec fn loop_bytes(b: Seq<u8>) -> Seq<u8> {
        b.subrange(1, b.len() as int)
    }

    /// The error reported for bytes that do not parse: a complete header
    /// whose body is empty or does not split into cells gives `InvalidDescriptor`.
    pub open spec fn bytes_error(e: Error, s: Seq<u8>) -> bool {
        if header_ok(s, TAG) {
            is_invalid(e, TAG)
        } else {
            header_error(e, s, TAG)
        }
    }

    /// `self` is what parsing the body `b` yields.
    pub open spec fn decodes(&self, b: Seq<u8>) -> bool {
        &&& self.mosaic_entry_point == (b[0] >= 128)
        &&& self.num_horizontal_cells == (b[0] / 16) % 8
        &&& self.num_vertical_cells == b[0] % 8
        &&& run_decodes(self.logical_cells@, Self::loop_bytes(b), cell_len_fn(), cell_dec_fn())
    }

    /// The logical cell bytes.
    pub open spec fn loop_wire(&self) -> Seq<u8> {
        concat_map(self.logical_cells@, cell_enc_fn())
    }

    /// The body bytes.
    pub open spec fn body_bytes(&self) -> Seq<u8> {
        seq![grid_byte(self.mosaic_entry_point, self.num_horizontal_cells, self.num_vertical_cells)]
            + self.loop_wire()
    }

    /// The complete wire encoding.
    pub open spec fn wire(&self) -> Seq<u8> {
        framed(TAG, self.body_bytes())
    }

    /// Every field fits its wire width and the body fits its length byte.
    pub open spec fn wf(&self) -> bool {
        &&& self.num_horizontal_cells < 8
        &&& self.num_vertical_cells < 8
        &&& forall|i: int| 0 <= i < self.logical_cells@.len() ==> #[trigger] self.logical_cells@[i].wf()
        &&& self.body_bytes().len() <= 255
    }

    /// The reserved bits of the parsed descriptor `s` are all ones.
    pub open spec fn canonical(s: Seq<u8>) -> bool {
        &&& (body_of(s)[0] / 8) % 2 == 1
        &&& run_all(Self::loop_bytes(body_of(s)), cell_len_fn(), cell_canon_fn())
    }

    /// Parses a mosaic descriptor from the front of `bytes`.
    pub fn parse(bytes: &[u8]) -> (r: Result<Self, Error>)
        ensures
            r is Ok <==> Self::bytes_ok(bytes@),
            r matches Ok(d) ==> d.decodes(body_of(bytes@)),
            r matches Err(e) ==> Self::bytes_error(e, bytes@),
    {
        let whole = descriptor_body(bytes, TAG, "MosaicDescriptor", "unexpected tag for mosaic_descriptor")?;
        if whole.len() < GRID_HEADER_LEN {
            return Err(Error::InvalidDescriptor { tag: TAG, reason: "mosaic_descriptor missing grid header byte" });
        }
        let g = whole[0];
        let mosaic_entry_point = g >= 0x80;
        let num_horizontal_cells = (g / 16) % 8;
        let num_vertical_cells = g % 8;
        let body = &whole[GRID_HEADER_LEN..whole.len()];
        let ghost b = body@;
        proof {
            lemma_cell_len_stable();
            assert(b =~= Self::loop_bytes(body_of(bytes@)));
            assert(b.subrange(0, 0) =~= Seq::<u8>::empty());
            assert(b.subrange(0, b.len() as int) =~= b);
        }
        let mut pos: usize = 0;
        let mut logical_cells: Vec<MosaicLogicalCell> = Vec::new();
        while pos < body.len()
            invariant
                pos <= body.len(),
                b == body@,
                header_ok(bytes@, TAG),
                bytes@[1] >= 1,
                b == Self::loop_bytes(body_of(bytes@)),
                len_stable(cell_len_fn()),
                run_ok(b, cell_len_fn()) == run_ok(b.subrange(pos as int, b.len() as int), cell_len_fn()),
                run_decodes(logical_cells@, b.subrange(0, pos as int), cell_len_fn(), cell_dec_fn()),
            decreases body.len() - pos,
        {
            let (c, end) = parse_cell(body, pos)?;
            proof {
                lemma_run_step(b, pos as int, cell_len_fn());
                let ct = b.subrange(pos as int, end as int);
                lemma_run_push(logical_cells@, b.subrange(0, pos as int), c, ct, cell_len_fn(), cell_dec_fn());
                assert(b.subrange(0, pos as int) + ct =~= b.subrange(0, end as int));
            }
            logical_cells.push(c);
            pos = end;
        }
        proof {
            assert(b.subrange(0, pos as int) =~= b);
        }
        Ok(MosaicDescriptor { mosaic_entry_point, num_horizontal_cells, num_vertical_cells, logical_cells })
    }

    /// Length of the wire encoding.
    pub fn serialized_len(&self) -> (n: usize)
        requires
            self.wire().len() <= usize::MAX,
        ensures
            n == self.wire().len(),
    {
        let mut total: usize = HEADER_LEN + GRID_HEADER_LEN;
        let mut i: usize = 0;
        while i < self.logical_cells.len()
            invariant
                i <= self.logical_cells@.len(),
                self.wire().len() <= usize::MAX,
                total == 3 + concat_map(self.logical_cells@.subrange(0, i as int), cell_enc_fn()).len(),
            decreases self.logical_cells@.len() - i,
        {
            proof {
                lemma_concat_map_push(
                    self.logical_cells@.subrange(0, i as int),
                    self.logical_cells@[i as int],
                    cell_enc_fn(),
                );
                assert(self.logical_cells@.subrange(0, i as int).push(self.logical_cells@[i as int])
                    =~= self.logical_cells@.subrange(0, i + 1));
                lemma_concat_map_prefix_len(self.logical_cells@, i + 1, cell_enc_fn());
            }
            let c = &self.logical_cells[i];
            total = total + CELL_FIXED_LEN + c.elementary_cell_ids.len() + 1 + c.linkage.payload_len();
            i = i + 1;
        }
        assert(self.logical_cells@.subrange(0, i as int) =~= self.logical_cells@);
        total
    }

    /// The `descriptor_length` byte: the body length, truncated to 8 bits.
    pub fn descriptor_length(&self) -> (n: u8)
        requires
            self.wire().len() <= usize::MAX,
        ensures
            n == (self.body_bytes().len() % 256) as u8,
    {
        ((self.serialized_len() - HEADER_LEN) % 256) as u8
    }

    fn encode(&self) -> (v: Vec<u8>)
        requires
            self.wire().len() <= usize::MAX,
        ensures
            v@ == self.wire(),
    {
        let mut v = Vec::new();
        push_u8(&mut v, TAG);
        push_u8(&mut v, self.descriptor_length());
        let ep: u8 = if self.mosaic_entry_point {
            0x80
        } else {
            0
        };
        let g: u8 = ep + (self.num_horizontal_cells % 8) * 16 + 8 + self.num_vertical_cells % 8;
        assert(g == grid_byte(self.mosaic_entry_point, self.num_horizontal_cells, self.num_vertical_cells));
        push_u8(&mut v, g);
        let ghost start = v@;
        let mut i: usize = 0;
        while i < self.logical_cells.len()
            invariant
                i <= self.logical_cells@.len(),
                v@ == start + concat_map(self.logical_cells@.subrange(0, i as int), cell_enc_fn()),
            decreases self.logical_cells@.len() - i,
        {
            proof {
                lemma_concat_map_push(
                    self.logical_cells@.subrange(0, i as int),
                    self.logical_cells@[i as int],
                    cell_enc_fn(),
                );
                assert(self.logical_cells@.subrange(0, i as int).push(self.logical_cells@[i as int])
                    =~= self.logical_cells@.subrange(0, i + 1));
            }
            push_cell(&mut v, &self.logical_cells[i]);
            i = i + 1;
            assert(v@ =~= start + concat_map(self.logical_cells@.subrange(0, i as int), cell_enc_fn()));
        }
        assert(self.logical_cells@.subrange(0, i as int) =~= self.logical_cells@);
        assert(v@ =~= self.wire());
        v
    }

    /// Writes the descriptor to the front of `buf`; a body over 255 bytes is
    /// refused. (A cell with more than 255 elementary cells makes the body
    /// longer than that, so its 8-bit elementary_cell_field_length never overflows.)
    pub fn serialize_into(&self, buf: &mut [u8]) -> (r: Result<usize, Error>)
        requires
            self.wire().len() <= usize::MAX,
        ensures
            emitted_capped(r, old(buf)@, final(buf)@, self.wire(), self.body_bytes().len() as int),
    {
        let len = self.serialized_len();
        if buf.len() < len {
            return Err(Error::OutputBufferTooSmall { need: len, have: buf.len() });
        }
        let body_len = len - HEADER_LEN;
        if body_len > MAX_BODY_LEN {
            return Err(Error::SectionLengthOverflow { declared: body_len, available: MAX_BODY_LEN });
        }
        let v = self.encode();
        copy_to_front(buf, &v);
        Ok(len)
    }
}


proof fn lemma_linkage_encode_parse(l: CellLinkage)
    requires
        l.wf(),
    ensures
        l.payload_wire().len() == linkage_payload_len(l.spec_info()),
        l.decodes(l.spec_info(), l.payload_wire()),
{
    let p = l.payload_wire();
    match l {
        CellLinkage::Bouquet { bouquet_id } => {
            lemma_be16_of_bytes(bouquet_id);
        },
        CellLinkage::Service { original_network_id, transport_stream_id, service_id }
        | CellLinkage::OtherMosaic { original_network_id, transport_stream_id, service_id } => {
            lemma_be16_of_bytes(original_network_id);
            lemma_be16_of_bytes(transport_stream_id);
            lemma_be16_of_bytes(service_id);
            assert(be16(p, 2) == be16(u16_bytes(transport_stream_id), 0));
            assert(be16(p, 4) == be16(u16_bytes(service_id), 0));
        },
        CellLinkage::Event { original_network_id, transport_stream_id, service_id, event_id } => {
            lemma_be16_of_bytes(original_network_id);
            lemma_be16_of_bytes(transport_stream_id);
            lemma_be16_of_bytes(service_id);
            lemma_be16_of_bytes(event_id);
            assert(be16(p, 2) == be16(u16_bytes(transport_stream_id), 0));
            assert(be16(p, 4) == be16(u16_bytes(service_id), 0));
            assert(be16(p, 6) == be16(u16_bytes(event_id), 0));
        },
        _ => {},
    }
}

proof fn lemma_linkage_parse_encode(l: CellLinkage, info: u8, p: Seq<u8>)
    requires
        l.decodes(info, p),
    ensures
        l.spec_info() == info,
        l.payload_wire() == p,
        l.wf(),
{
    match l {
        CellLinkage::Bouquet { .. } => {
            lemma_bytes_of_be16(p, 0);
            assert(l.payload_wire() =~= p.subrange(0, 2));
        },
        CellLinkage::Service { .. } | CellLinkage::OtherMosaic { .. } => {
            lemma_bytes_of_be16(p, 0);
            lemma_bytes_of_be16(p, 2);
            lemma_bytes_of_be16(p, 4);
            assert(l.payload_wire() =~= p);
        },
        CellLinkage::Event { .. } => {
            lemma_bytes_of_be16(p, 0);
            lemma_bytes_of_be16(p, 2);
            lemma_bytes_of_be16(p, 4);
            lemma_bytes_of_be16(p, 6);
            assert(l.payload_wire() =~= p);
        },
        _ => {
            assert(l.payload_wire() =~= p);
        },
    }
}

proof fn lemma_cell_encode_parse(c: MosaicLogicalCell)
    requires
        c.wf(),
    ensures
        0 < cell_len(c.wire()) == c.wire().len(),
        cell_dec_fn()(c, c.wire()),
{
    let w = c.wire();
    let ids = c.elementary_cell_ids@;
    let n = ids.len() as int;
    let l = c.linkage;
    lemma_linkage_encode_parse(l);
    assert(w[2] == n);
    assert(w[3 + n] == l.spec_info());
    assert(w.subrange(4 + n, w.len() as int) =~= l.payload_wire());
    assert forall|k: int| 0 <= k < n implies #[trigger] ids[k] == w[3 + k] % 64 by {
        assert(w[3 + k] == elem_wire(ids)[k]);
    }
}

proof fn lemma_cell_parse_encode(c: MosaicLogicalCell, t: Seq<u8>)
    requires
        cell_dec_fn()(c, t),
        cell_canonical(t),
    ensures
        c.wire() == t,
        c.wf(),
{
    let n = t[2] as int;
    let ids = c.elementary_cell_ids@;
    let p = t.subrange(4 + n, t.len() as int);
    lemma_linkage_parse_encode(c.linkage, t[3 + n], p);
    let w = c.wire();
    assert forall|k: int| 0 <= k < n implies #[trigger] elem_wire(ids)[k] == t[3 + k] by {
        assert(t[3 + k] >= 192);
    }
    assert forall|k: int| 0 <= k < ids.len() implies #[trigger] ids[k] < 64 by {}
    assert(w =~= t) by {
        assert forall|j: int| 0 <= j < t.len() implies w[j] == t[j] by {
            if 3 <= j < 3 + n {
                assert(w[j] == elem_wire(ids)[j - 3]);
            } else if j >= 4 + n {
                assert(w[j] == c.linkage.payload_wire()[j - 4 - n]);
                assert(p[j - 4 - n] == t[j]);
            }
        }
    }
}

proof fn lemma_cell_relength(c: MosaicLogicalCell, t: Seq<u8>)
    requires
        cell_dec_fn()(c, t),
    ensures
        c.wire().len() <= t.len(),
        c.wf(),
{
    let n = t[2] as int;
    let ids = c.elementary_cell_ids@;
    lemma_linkage_parse_encode(c.linkage, t[3 + n], t.subrange(4 + n, t.len() as int));
    assert forall|k: int| 0 <= k < ids.len() implies #[trigger] ids[k] < 64 by {}
}

proof fn lemma_grid_byte(g: u8, ep: bool, h: u8, v: u8)
    ensures
        h < 8 && v < 8 && g == grid_byte(ep, h, v) ==> (g >= 128) == ep && (g / 16) % 8 == h && g % 8 == v,
        (g / 8) % 2 == 1 ==> grid_byte(g >= 128, (g / 16) % 8, g % 8) == g,
{
}

/// Encoding a well-formed mosaic descriptor and parsing the bytes gives it back.
pub proof fn lemma_mosaic_encode_parse(d: MosaicDescriptor)
    requires
        d.wf(),
    ensures
        MosaicDescriptor::bytes_ok(d.wire()),
        d.decodes(body_of(d.wire())),
{
    lemma_cell_len_stable();
    let cs = d.logical_cells@;
    assert forall|i: int| 0 <= i < cs.len() implies 0 < cell_len_fn()(#[trigger] cell_enc_fn()(cs[i]))
        == cell_enc_fn()(cs[i]).len() && cell_dec_fn()(cs[i], cell_enc_fn()(cs[i])) by {
        assert(cs[i].wf());
        lemma_cell_encode_parse(cs[i]);
    }
    lemma_run_of_encoded(cs, cell_len_fn(), cell_dec_fn(), cell_enc_fn());
    lemma_framed_parses(TAG, d.body_bytes());
    assert(MosaicDescriptor::loop_bytes(d.body_bytes()) =~= d.loop_wire());
    let g = grid_byte(d.mosaic_entry_point, d.num_horizontal_cells, d.num_vertical_cells);
    lemma_grid_byte(g, d.mosaic_entry_point, d.num_horizontal_cells, d.num_vertical_cells);
}

/// Parsing a mosaic descriptor whose reserved bits are all ones and encoding
/// the result gives back its bytes.
pub proof fn lemma_mosaic_parse_encode(s: Seq<u8>, d: MosaicDescriptor)
    requires
        MosaicDescriptor::bytes_ok(s),
        MosaicDescriptor::canonical(s),
        d.decodes(body_of(s)),
    ensures
        d.wire() == framed_prefix(s),
        d.wf(),
{
    let b = MosaicDescriptor::loop_bytes(body_of(s));
    assert forall|c: MosaicLogicalCell, t: Seq<u8>| #[trigger] cell_dec_fn()(c, t) && cell_canon_fn()(t) implies cell_enc_fn()(c)
        == t && cell_good_fn()(c) by {
        lemma_cell_parse_encode(c, t);
    }
    lemma_run_reencodes(d.logical_cells@, b, cell_len_fn(), cell_dec_fn(), cell_enc_fn(), cell_canon_fn(), cell_good_fn());
    assert forall|i: int| 0 <= i < d.logical_cells@.len() implies #[trigger] d.logical_cells@[i].wf() by {
        assert(cell_good_fn()(d.logical_cells@[i]));
    }
    let g = body_of(s)[0];
    lemma_grid_byte(g, d.mosaic_entry_point, d.num_horizontal_cells, d.num_vertical_cells);
    lemma_reframe(s, TAG);
    assert(d.body_bytes() =~= body_of(s));
}

/// A parsed MosaicDescriptor is well formed: it encodes again, and parsing that encoding
/// yields it back.
pub proof fn lemma_mosaic_reparse(s: Seq<u8>, d: MosaicDescriptor)
    requires
        MosaicDescriptor::bytes_ok(s),
        d.decodes(body_of(s)),
    ensures
        d.wf(),
        MosaicDescriptor::bytes_ok(d.wire()),
        d.decodes(body_of(d.wire())),
{
    let b = MosaicDescriptor::loop_bytes(body_of(s));
    assert forall|c: MosaicLogicalCell, t: Seq<u8>| #[trigger] cell_dec_fn()(c, t) implies cell_enc_fn()(c).len()
        <= t.len() && cell_good_fn()(c) by {
        lemma_cell_relength(c, t);
    }
    lemma_run_relength(d.logical_cells@, b, cell_len_fn(), cell_dec_fn(), cell_enc_fn(), cell_good_fn());
    assert forall|i: int| 0 <= i < d.logical_cells@.len() implies #[trigger] d.logical_cells@[i].wf() by {
        assert(cell_good_fn()(d.logical_cells@[i]));
    }
    lemma_reframe(s, TAG);
    lemma_mosaic_encode_parse(d);
}

pub open spec fn cell_agrees_fn() -> spec_fn(MosaicLogicalCell, MosaicLogicalCell) -> bool {
    |a: MosaicLogicalCell, b: MosaicLogicalCell| a.agrees(&b)
}

/// Parsing is deterministic: two mosaic descriptors that decode the same body
/// agree on every field, cell by cell.
pub proof fn lemma_mosaic_decodes_unique(b: Seq<u8>, d1: MosaicDescriptor, d2: MosaicDescriptor)
    requires
        d1.decodes(b),
        d2.decodes(b),
    ensures
        d1.logical_cells@.len() == d2.logical_cells@.len(),
        forall|i: int| 0 <= i < d1.logical_cells@.len() ==> #[trigger] d1.logical_cells@[i].agrees(&d2.logical_cells@[i]),
        d1 == (MosaicDescriptor { logical_cells: d1.logical_cells, ..d2 }),
{
    assert forall|x: MosaicLogicalCell, y: MosaicLogicalCell, t: Seq<u8>|
        #![trigger cell_dec_fn()(x, t), cell_dec_fn()(y, t)]
        cell_dec_fn()(x, t) && cell_dec_fn()(y, t) implies cell_agrees_fn()(x, y) by {
        assert(x.elementary_cell_ids@ =~= y.elementary_cell_ids@);
    }
    lemma_run_decodes_same(
        d1.logical_cells@,
        d2.logical_cells@,
        MosaicDescriptor::loop_bytes(b),
        cell_len_fn(),
        cell_dec_fn(),
        cell_agrees_fn(),
    );
    assert forall|i: int| 0 <= i < d1.logical_cells@.len() implies #[trigger] d1.logical_cells@[i].agrees(
        &d2.logical_cells@[i],
    ) by {
        assert(cell_agrees_fn()(d1.logical_cells@[i], d2.logical_cells@[i]));
    }
}

proof fn lemma_mosaic_wire_head(d: MosaicDescriptor)
    requires
        d.wf(),
    ensures
        d.wire()[0] == TAG,
        d.wire()[1] == d.wire().len() - 2,
        (d.wire()[2] / 8) % 2 == 1,
{
    let w = d.wire();
    let b = d.body_bytes();
    assert(w[0] == TAG && w[1] == b.len() && w[2] == b[0]);
    assert(b[0] == grid_byte(d.mosaic_entry_point, d.num_horizontal_cells, d.num_vertical_cells));
}

/// Round trip of a well-formed mosaic descriptor: its encoding carries the tag,
/// a length byte equal to the body length and the grid byte's reserved bit set,
/// parses again, and what parses from it agrees with it on every field, cell by cell.
pub proof fn lemma_mosaic_round_trip(d: MosaicDescriptor, d2: MosaicDescriptor)
    requires
        d.wf(),
        d2.decodes(body_of(d.wire())),
    ensures
        MosaicDescriptor::bytes_ok(d.wire()),
        d.wire()[0] == TAG,
        d.wire()[1] == d.wire().len() - 2,
        (d.wire()[2] / 8) % 2 == 1,
        d2.logical_cells@.len() == d.logical_cells@.len(),
        forall|i: int| 0 <= i < d.logical_cells@.len() ==> #[trigger] d2.logical_cells@[i].agrees(&d.logical_cells@[i]),
        d2 == (MosaicDescriptor { logical_cells: d2.logical_cells, ..d }),
{
    lemma_mosaic_encode_parse(d);
    lemma_mosaic_wire_head(d);
    lemma_mosaic_decodes_unique(body_of(d.wire()), d2, d);
}

/// The cell_linkage_info of a parsed logical cell, in the literal codes of
/// EN 300 468: 0 undefined (no payload), 1 bouquet (2 bytes), 2 service (6 bytes),
/// 3 other mosaic (6 bytes), 4 event (8 bytes), 5 and above reserved (no payload).
pub proof fn lemma_mosaic_cell_linkage_codes(c: MosaicLogicalCell, t: Seq<u8>)
    requires
        cell_dec_fn()(c, t),
    ensures
        t[3 + t[2]] == 0 ==> c.linkage is Undefined,
        t[3 + t[2]] == 1 ==> c.linkage is Bouquet,
        t[3 + t[2]] == 2 ==> c.linkage is Service,
        t[3 + t[2]] == 3 ==> c.linkage is OtherMosaic,
        t[3 + t[2]] == 4 ==> c.linkage is Event,
        t[3 + t[2]] >= 5 ==> c.linkage == (CellLinkage::Reserved { value: t[3 + t[2]] }),
        t[3 + t[2]] == 0 ==> t.len() == 4 + t[2],
        t[3 + t[2]] == 1 ==> t.len() == 6 + t[2],
        (t[3 + t[2]] == 2 || t[3 + t[2]] == 3) ==> t.len() == 10 + t[2],
        t[3 + t[2]] == 4 ==> t.len() == 12 + t[2],
        t[3 + t[2]] >= 5 ==> t.len() == 4 + t[2],
{
}

} // verus!
