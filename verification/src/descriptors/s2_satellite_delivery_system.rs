//! S2 Satellite Delivery System Descriptor — ETSI EN 300 468 §6.2.13.3 (tag 0x79).
//!
//! Companion to the satellite_delivery_system_descriptor (tag 0x43) when the
//! carrier is DVB-S2. Carries a PLS Gold scrambling sequence index, an
//! input_stream_identifier (ISI) for multi-stream carriers, the TS/GS mode, and
//! an optional timeslice number.
//!
//! ```text
//!  byte 0 (flags):
//!    bit 7      scrambling_sequence_selector
//!    bit 6      multiple_input_stream_flag
//!    bit 5      reserved_zero_future_use
//!    bit 4      not_timeslice_flag
//!    bits 3..2  reserved_future_use
//!    bits 1..0  TS_GS_mode
//!  if scrambling_sequence_selector == 1 (3 bytes):
//!    reserved(6) + scrambling_sequence_index(18)
//!  if multiple_input_stream_flag == 1 (1 byte):
//!    input_stream_identifier(8)
//!  if not_timeslice_flag == 0 (1 byte):
//!    timeslice_number(8)
//! ```
//!
//! Reserved bits are ignored on parse; on serialize bits 3..2 of the flags
//! byte and the six bits above the scrambling index are written as ones, bit 5
//! as zero. Bytes after the last present field are ignored on parse.

use super::{body_of, emitted, framed, framed_prefix, lemma_framed_parses, lemma_reframe, HEADER_LEN};
use crate::error::{is_invalid, is_too_short, Error};
use crate::wire::copy_to_front;
use vstd::prelude::*;

verus! {

/// Descriptor tag for s2_satellite_delivery_system_descriptor.
pub const TAG: u8 = 0x79;

const FLAGS_LEN: usize = 1;

const SCRAMBLING_FIELD_LEN: usize = 3;

const ISI_FIELD_LEN: usize = 1;

const TIMESLICE_FIELD_LEN: usize = 1;

/// Largest value of the 18-bit scrambling_sequence_index.
const SCRAMBLING_INDEX_MAX: u32 = 0x3FFFF;

/// S2 Satellite Delivery System Descriptor.
#[derive(Debug, Clone, PartialEq, Eq)]
pub struct S2SatelliteDeliverySystemDescriptor {
    /// When set, `scrambling_sequence_index` is present.
    pub scrambling_sequence_selector: bool,
    /// When set, `input_stream_identifier` is present.
    pub multiple_input_stream_flag: bool,
    /// When set, timeslicing is NOT used and `timeslice_number` is absent.
    pub not_timeslice_flag: bool,
    /// 2-bit TS/GS mode (0 generic packetized, 1 GSE, 2 DVB TS, 3 reserved).
    pub ts_gs_mode: u8,
    /// 18-bit PLS Gold scrambling sequence index.
    pub scrambling_sequence_index: Option<u32>,
    /// 8-bit input_stream_identifier (ISI).
    pub input_stream_identifier: Option<u8>,
    /// 8-bit timeslice_number, present when `not_timeslice_flag` is false.
    pub timeslice_number: Option<u8>,
}

/// The scrambling selector bit of the flags byte `f`.
pub open spec fn sel_of(f: u8) -> bool {
    f >= 128
}

/// The multiple_input_stream bit of the flags byte `f`.
pub open spec fn mis_of(f: u8) -> bool {
    (f / 64) % 2 == 1
}

/// The not_timeslice bit of the flags byte `f`.
pub open spec fn nts_of(f: u8) -> bool {
    (f / 16) % 2 == 1
}

/// Body offset of the input_stream_identifier (or of what follows the scrambling field).
pub open spec fn isi_at(f: u8) -> int {
    if sel_of(f) {
        4
    } else {
        1
    }
}

/// Body offset of the timeslice_number (or of what follows the ISI field).
pub open spec fn timeslice_at(f: u8) -> int {
    isi_at(f) + if mis_of(f) {
        1int
    } else {
        0int
    }
}

/// Number of body bytes the fields announced by the flags byte `f` occupy.
pub open spec fn needed(f: u8) -> int {
    timeslice_at(f) + if nts_of(f) {
        0int
    } else {
        1int
    }
}

impl S2SatelliteDeliverySystemDescriptor {
    /// Parsing succeeds on exactly these bytes.
    pub open spec fn bytes_ok(s: Seq<u8>) -> bool {
        &&& s.len() >= 3
        &&& s[0] == TAG
        &&& s.len() >= 2 + s[1]
        &&& s[1] >= 1
        &&& s[1] >= needed(s[2])
    }

    /// The error reported for bytes that do not parse: a field that runs past
    /// the body reports the body offset of its end against the body length.
    pub open spec fn bytes_error(e: Error, s: Seq<u8>) -> bool {
        if s.len() < 3 {
            is_too_short(e, 3, s.len() as int)
        } else if s[0] != TAG {
            is_invalid(e, s[0])
        } else if s.len() < 2 + s[1] {
            is_too_short(e, 2 + s[1], s.len() as int)
        } else if s[1] < 1 {
            is_invalid(e, TAG)
        } else if sel_of(s[2]) && s[1] < 4 {
            is_too_short(e, 4, s[1] as int)
        } else if mis_of(s[2]) && s[1] < isi_at(s[2]) + 1 {
            is_too_short(e, isi_at(s[2]) + 1, s[1] as int)
        } else {
            is_too_short(e, timeslice_at(s[2]) + 1, s[1] as int)
        }
    }

    /// `self` is what parsing the body `b` yields.
    pub open spec fn decodes(&self, b: Seq<u8>) -> bool {
        let f = b[0];
        &&& self.scrambling_sequence_selector == sel_of(f)
        &&& self.multiple_input_stream_flag == mis_of(f)
        &&& self.not_timeslice_flag == nts_of(f)
        &&& self.ts_gs_mode == f % 4
        &&& self.scrambling_sequence_index == if sel_of(f) {
            Some(((b[1] % 4) * 65536 + b[2] * 256 + b[3]) as u32)
        } else {
            None
        }
        &&& self.input_stream_identifier == if mis_of(f) {
            Some(b[isi_at(f)])
        } else {
            None
        }
        &&& self.timeslice_number == if !nts_of(f) {
            Some(b[timeslice_at(f)])
        } else {
            None
        }
    }

    /// The flags byte written: bits 3..2 set, bit 5 clear.
    pub open spec fn flags_byte(&self) -> u8 {
        ((if self.scrambling_sequence_selector {
            128int
        } else {
            0int
        }) + (if self.multiple_input_stream_flag {
            64int
        } else {
            0int
        }) + (if self.not_timeslice_flag {
            16int
        } else {
            0int
        }) + 12 + self.ts_gs_mode % 4) as u8
    }

    /// The scrambling field written when the selector is set: six reserved
    /// ones over the low 18 bits of the index (0 when absent).
    pub open spec fn scrambling_wire(&self) -> Seq<u8> {
        let x = self.scrambling_sequence_index.unwrap_or(0) % 0x40000;
        if self.scrambling_sequence_selector {
            seq![(252 + x / 65536) as u8, ((x / 256) % 256) as u8, (x % 256) as u8]
        } else {
            Seq::empty()
        }
    }

    /// The ISI byte written when the flag is set (0 when absent).
    pub open spec fn isi_wire(&self) -> Seq<u8> {
        if self.multiple_input_stream_flag {
            seq![self.input_stream_identifier.unwrap_or(0)]
        } else {
            Seq::empty()
        }
    }

    /// The timeslice byte written when timeslicing is used (0 when absent).
    pub open spec fn timeslice_wire(&self) -> Seq<u8> {
        if !self.not_timeslice_flag {
            seq![self.timeslice_number.unwrap_or(0)]
        } else {
            Seq::empty()
        }
    }

    /// The body bytes.
    pub open spec fn body_bytes(&self) -> Seq<u8> {
        seq![self.flags_byte()] + self.scrambling_wire() + self.isi_wire() + self.timeslice_wire()
    }

    /// The complete wire encoding.
    pub open spec fn wire(&self) -> Seq<u8> {
        framed(TAG, self.body_bytes())
    }

    /// Each optional field is present exactly when its flag says so, and every
    /// value fits its wire width.
    pub open spec fn wf(&self) -> bool {
        &&& self.ts_gs_mode < 4
        &&& self.scrambling_sequence_selector == self.scrambling_sequence_index.is_some()
        &&& (self.scrambling_sequence_index matches Some(x) ==> x <= 0x3FFFF)
        &&& self.multiple_input_stream_flag == self.input_stream_identifier.is_some()
        &&& !self.not_timeslice_flag == self.timeslice_number.is_some()
    }

    /// The body of `s` holds exactly the announced fields, with the reserved
    /// bits as serialization writes them.
    pub open spec fn canonical(s: Seq<u8>) -> bool {
        let f = s[2];
        &&& s[1] == needed(f)
        &&& (f / 4) % 4 == 3
        &&& (f / 32) % 2 == 0
        &&& sel_of(f) ==> s[3] >= 252
    }

    /// Parses an S2 satellite delivery system descriptor from the front of `bytes`.
    pub fn parse(bytes: &[u8]) -> (r: Result<Self, Error>)
        ensures
            r is Ok <==> Self::bytes_ok(bytes@),
            r matches Ok(d) ==> d.decodes(body_of(bytes@)),
            r matches Err(e) ==> Self::bytes_error(e, bytes@),
    {
        if bytes.len() < HEADER_LEN + FLAGS_LEN {
            return Err(
                Error::BufferTooShort {
                    need: HEADER_LEN + FLAGS_LEN,
                    have: bytes.len(),
                    what: "S2SatelliteDeliverySystemDescriptor header",
                },
            );
        }
        if bytes[0] != TAG {
            return Err(
                Error::InvalidDescriptor {
                    tag: bytes[0],
                    reason: "unexpected tag for s2_satellite_delivery_system_descriptor",
                },
            );
        }
        let length = bytes[1] as usize;
        let end = HEADER_LEN + length;
        if bytes.len() < end {
            return Err(
                Error::BufferTooShort { need: end, have: bytes.len(), what: "S2SatelliteDeliverySystemDescriptor body" },
            );
        }
        if length < FLAGS_LEN {
            return Err(Error::InvalidDescriptor { tag: TAG, reason: "body must contain at least the flags byte" });
        }
        let ghost b = body_of(bytes@);
        let flags = bytes[HEADER_LEN];
        assert(b[0] == flags);
        let scrambling_sequence_selector = flags >= 0x80;
        let multiple_input_stream_flag = (flags / 64) % 2 == 1;
        let not_timeslice_flag = (flags / 16) % 2 == 1;
        let ts_gs_mode = flags % 4;
        let mut pos = HEADER_LEN + FLAGS_LEN;
        let scrambling_sequence_index = if scrambling_sequence_selector {
            if pos + SCRAMBLING_FIELD_LEN > end {
                return Err(
                    Error::BufferTooShort {
                        need: pos + SCRAMBLING_FIELD_LEN - HEADER_LEN,
                        have: length,
                        what: "S2SatelliteDeliverySystemDescriptor scrambling_sequence_index",
                    },
                );
            }
            let b0 = bytes[pos];
            let b1 = bytes[pos + 1];
            let b2 = bytes[pos + 2];
            assert(b[1] == b0 && b[2] == b1 && b[3] == b2);
            let index: u32 = (b0 % 4) as u32 * 65536 + b1 as u32 * 256 + b2 as u32;
            pos = pos + SCRAMBLING_FIELD_LEN;
            Some(index)
        } else {
            None
        };
        assert(pos == HEADER_LEN + isi_at(flags));
        let input_stream_identifier = if multiple_input_stream_flag {
            if pos + ISI_FIELD_LEN > end {
                return Err(
                    Error::BufferTooShort {
                        need: pos + ISI_FIELD_LEN - HEADER_LEN,
                        have: length,
                        what: "S2SatelliteDeliverySystemDescriptor input_stream_identifier",
                    },
                );
            }
            let isi = bytes[pos];
            assert(b[isi_at(flags)] == isi);
            pos = pos + ISI_FIELD_LEN;
            Some(isi)
        } else {
            None
        };
        assert(pos == HEADER_LEN + timeslice_at(flags));
        let timeslice_number = if !not_timeslice_flag {
            if pos + TIMESLICE_FIELD_LEN > end {
                return Err(
                    Error::BufferTooShort {
                        need: pos + TIMESLICE_FIELD_LEN - HEADER_LEN,
                        have: length,
                        what: "S2SatelliteDeliverySystemDescriptor timeslice_number",
                    },
                );
            }
            assert(b[timeslice_at(flags)] == bytes@[pos as int]);
            Some(bytes[pos])
        } else {
            None
        };
        Ok(
            S2SatelliteDeliverySystemDescriptor {
                scrambling_sequence_selector,
                multiple_input_stream_flag,
                not_timeslice_flag,
                ts_gs_mode,
                scrambling_sequence_index,
                input_stream_identifier,
                timeslice_number,
            },
        )
    }

    /// Length of the wire encoding.
    pub fn serialized_len(&self) -> (n: usize)
        ensures
            n == self.wire().len(),
    {
        HEADER_LEN + FLAGS_LEN + if self.scrambling_sequence_selector {
            SCRAMBLING_FIELD_LEN
        } else {
            0
        } + if self.multiple_input_stream_flag {
            ISI_FIELD_LEN
        } else {
            0
        } + if self.not_timeslice_flag {
            0
        } else {
            TIMESLICE_FIELD_LEN
        }
    }

    /// The `descriptor_length` byte.
    pub fn descriptor_length(&self) -> (n: u8)
        ensures
            n == self.body_bytes().len(),
    {
        (self.serialized_len() - HEADER_LEN) as u8
    }

    fn encode(&self) -> (v: Vec<u8>)
        ensures
            v@ == self.wire(),
    {
        let mut v: Vec<u8> = Vec::new();
        v.push(TAG);
        v.push(self.descriptor_length());
        let mut flags: u8 = 12 + self.ts_gs_mode % 4;
        if self.scrambling_sequence_selector {
            flags = flags + 128;
        }
        if self.multiple_input_stream_flag {
            flags = flags + 64;
        }
        if self.not_timeslice_flag {
            flags = flags + 16;
        }
        assert(flags == self.flags_byte());
        v.push(flags);
        if self.scrambling_sequence_selector {
            let raw: u32 = match self.scrambling_sequence_index {
                Some(i) => i,
                None => 0,
            };
            let x: u32 = raw % 0x40000;
            assert(x <= SCRAMBLING_INDEX_MAX);
            v.push((252 + x / 65536) as u8);
            v.push(((x / 256) % 256) as u8);
            v.push((x % 256) as u8);
        }
        if self.multiple_input_stream_flag {
            v.push(
                match self.input_stream_identifier {
                    Some(i) => i,
                    None => 0,
                },
            );
        }
        if !self.not_timeslice_flag {
            v.push(
                match self.timeslice_number {
                    Some(t) => t,
                    None => 0,
                },
            );
        }
        assert(v@ =~= self.wire());
        v
    }

    /// Writes the descriptor to the front of `buf`.
    pub fn serialize_into(&self, buf: &mut [u8]) -> (r: Result<usize, Error>)
        ensures
            emitted(r, old(buf)@, final(buf)@, self.wire()),
    {
        let len = self.serialized_len();
        if buf.len() < len {
            return Err(Error::OutputBufferTooSmall { need: len, have: buf.len() });
        }
        let v = self.encode();
        copy_to_front(buf, &v);
        Ok(len)
    }
}

proof fn lemma_flags(f: u8, d: S2SatelliteDeliverySystemDescriptor)
    ensures
        d.ts_gs_mode < 4 && f == d.flags_byte() ==> {
            &&& sel_of(f) == d.scrambling_sequence_selector
            &&& mis_of(f) == d.multiple_input_stream_flag
            &&& nts_of(f) == d.not_timeslice_flag
            &&& f % 4 == d.ts_gs_mode
            &&& (f / 4) % 4 == 3
            &&& (f / 32) % 2 == 0
        },
        (f / 4) % 4 == 3 && (f / 32) % 2 == 0 && d.scrambling_sequence_selector == sel_of(f)
            && d.multiple_input_stream_flag == mis_of(f) && d.not_timeslice_flag == nts_of(f) && d.ts_gs_mode == f
            % 4 ==> d.flags_byte() == f,
{
}

/// Encoding a well-formed S2 satellite delivery system descriptor and parsing
/// the bytes gives it back.
pub proof fn lemma_s2_satellite_encode_parse(d: S2SatelliteDeliverySystemDescriptor)
    requires
        d.wf(),
    ensures
        S2SatelliteDeliverySystemDescriptor::bytes_ok(d.wire()),
        d.decodes(body_of(d.wire())),
        S2SatelliteDeliverySystemDescriptor::canonical(d.wire()),
{
    let b = d.body_bytes();
    let f = d.flags_byte();
    lemma_flags(f, d);
    lemma_framed_parses(TAG, b);
    if d.scrambling_sequence_selector {
        let x = d.scrambling_sequence_index.unwrap();
        assert(b[1] == 252 + x / 65536 && b[2] == (x / 256) % 256 && b[3] == x % 256);
        assert((b[1] % 4) * 65536 + b[2] * 256 + b[3] == x);
    }
}

/// Parsing a canonical S2 satellite delivery system descriptor and encoding
/// the result gives back its bytes.
pub proof fn lemma_s2_satellite_parse_encode(s: Seq<u8>, d: S2SatelliteDeliverySystemDescriptor)
    requires
        S2SatelliteDeliverySystemDescriptor::bytes_ok(s),
        S2SatelliteDeliverySystemDescriptor::canonical(s),
        d.decodes(body_of(s)),
    ensures
        d.wire() == framed_prefix(s),
        d.wf(),
{
    let b = body_of(s);
    let f = b[0];
    lemma_flags(f, d);
    if d.scrambling_sequence_selector {
        let x = d.scrambling_sequence_index.unwrap();
        assert(x == (b[1] % 4) * 65536 + b[2] * 256 + b[3]);
        assert(x % 0x40000 == x);
        assert(252 + x / 65536 == b[1] && (x / 256) % 256 == b[2] && x % 256 == b[3]);
    }
    lemma_reframe(s, TAG);
    assert(d.body_bytes() =~= b);
}

/// A parsed S2SatelliteDeliverySystemDescriptor is well formed: it encodes again, and parsing that encoding
/// yields it back.
pub proof fn lemma_s2_satellite_reparse(s: Seq<u8>, d: S2SatelliteDeliverySystemDescriptor)
    requires
        S2SatelliteDeliverySystemDescriptor::bytes_ok(s),
        d.decodes(body_of(s)),
    ensures
        d.wf(),
        S2SatelliteDeliverySystemDescriptor::bytes_ok(d.wire()),
        d.decodes(body_of(d.wire())),
{
    lemma_s2_satellite_encode_parse(d);
}

/// Parsing, encoding and parsing again gives the same value: whatever parses
/// from the encoding of a parsed S2SatelliteDeliverySystemDescriptor equals it.
pub proof fn lemma_s2_satellite_round_trip(s: Seq<u8>, d: S2SatelliteDeliverySystemDescriptor, d2: S2SatelliteDeliverySystemDescriptor)
    requires
        S2SatelliteDeliverySystemDescriptor::bytes_ok(s),
        d.decodes(body_of(s)),
        d2.decodes(body_of(d.wire())),
    ensures
        d2 == d,
{
    lemma_s2_satellite_reparse(s, d);
}

} // verus!
