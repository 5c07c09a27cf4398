//! Image Icon Descriptor — ETSI EN 300 468 §6.4.7 (tag_extension 0x00).
//!
//! descriptor_number 0 carries the icon metadata and the first payload chunk;
//! other descriptor numbers are continuations holding icon_data only. A full
//! icon spans descriptor_number 0..=last_descriptor_number, reassembled by the
//! caller.

use super::ExtensionBodyDef;
use super::invalid;
use crate::error::{is_invalid, Error};
use crate::wire::{push_bytes, push_u8};
use crate::descriptors::emitted;
use crate::wire::copy_to_front;
use vstd::prelude::*;

verus! {

impl ExtensionBodyDef for ImageIcon<'_> {
    const TAG_EXTENSION: u8 = 0x00;
    const NAME: &'static str = "IMAGE_ICON";
}

/// image_icon body (Table 145): one descriptor instance of an icon.
///
/// Icon transport mode (Table 146): `0` data bytes, `1` URL, `2`-`3` reserved.
/// Coordinate system (Table 147): `0` 720×576, `1` 1280×720, `2` 1920×1080,
/// `3`-`6` reserved, `7` user defined.
#[derive(Debug, Clone, PartialEq, Eq)]
pub struct ImageIcon<'a> {
    /// descriptor_number (4 bits) — `[7:4]` of byte 0.
    pub descriptor_number: u8,
    /// last_descriptor_number (4 bits) — `[3:0]` of byte 0.
    pub last_descriptor_number: u8,
    /// icon_id (3 bits) — `[2:0]` of byte 1.
    pub icon_id: u8,
    /// First-segment metadata or continuation payload (keyed by `descriptor_number == 0`).
    pub body: ImageIconBody<'a>,
}

/// First-segment metadata or continuation payload (keyed by `descriptor_number == 0`).
#[derive(Debug, Clone, PartialEq, Eq)]
pub enum ImageIconBody<'a> {
    /// `descriptor_number == 0`: icon metadata and the first payload chunk.
    First(ImageIconFirst<'a>),
    /// `descriptor_number != 0`: a continuation icon_data chunk (length-prefixed).
    Continuation {
        /// Length-delimited icon_data_byte run.
        icon_data: &'a [u8],
    },
}

/// First-segment metadata (`descriptor_number == 0`).
#[derive(Debug, Clone, PartialEq, Eq)]
pub struct ImageIconFirst<'a> {
    /// icon_transport_mode (2 bits) — Table 146.
    pub icon_transport_mode: u8,
    /// Present iff position_flag is set.
    pub position: Option<IconPosition>,
    /// icon_type_char run (length-delimited on the wire).
    pub icon_type: &'a [u8],
    /// Transport-mode-dependent payload: icon_data bytes for mode 0, URL bytes
    /// for mode 1, empty for modes 2-3.
    pub payload: &'a [u8],
}

/// Position data (present iff position_flag is set).
#[derive(Debug, Clone, Copy, PartialEq, Eq)]
pub struct IconPosition {
    /// coordinate_system (3 bits) — Table 147.
    pub coordinate_system: u8,
    /// icon_horizontal_origin (12 bits).
    pub icon_horizontal_origin: u16,
    /// icon_vertical_origin (12 bits).
    pub icon_vertical_origin: u16,
}

/// The three bytes packing two 12-bit origins.
pub open spec fn origin_bytes(h: u16, v: u16) -> Seq<u8> {
    seq![
        ((h & 0x0FFF) >> 4u16) as u8,
        ((((h & 0x0FFF) & 0x0F) << 4u16) | (((v & 0x0FFF) >> 8u16) & 0x0F)) as u8,
        (v & 0x0FFF) as u8,
    ]
}

proof fn lemma_icon_bits(b0: u8, b1: u8, b2: u8, h: u16, v: u16, dn: u8, ldn: u8, tm: u8, cs: u8, pf: u8)
    by (bit_vector)
    requires
        pf <= 1,
    ensures
        dn < 16 ==> ((dn << 4u8) | (ldn & 0x0F)) >> 4u8 == dn,
        ((dn << 4u8) | (ldn & 0x0F)) & 0x0F == ldn & 0x0F,
        ldn < 16 ==> ldn & 0x0F == ldn,
        ((b0 >> 4u8) << 4u8) | ((b0 & 0x0F) & 0x0F) == b0,
        b0 >> 4u8 < 16,
        b0 & 0x0F < 16,
        (0xF8 | (dn & 0x07)) & 0x07 == dn & 0x07,
        dn < 8 ==> dn & 0x07 == dn,
        b1 & 0xF8 == 0xF8 ==> 0xF8 | ((b1 & 0x07) & 0x07) == b1,
        b1 & 0x07 < 8,
        tm < 4 ==> ((tm << 6u8) | (pf << 5u8) | ((cs & 0x07) << 2u8) | 0x03) >> 6u8 == tm,
        (((tm << 6u8) | (pf << 5u8) | ((cs & 0x07) << 2u8) | 0x03) >> 5u8) & 0x01 == pf,
        (((tm << 6u8) | (pf << 5u8) | ((cs & 0x07) << 2u8) | 0x03) >> 2u8) & 0x07 == cs & 0x07,
        tm < 4 ==> ((tm << 6u8) | (pf << 5u8) | 0x1F) >> 6u8 == tm,
        (((tm << 6u8) | (pf << 5u8) | 0x1F) >> 5u8) & 0x01 == pf,
        b2 & 0x03 == 0x03 && (b2 >> 5u8) & 0x01 == 1 ==> ((b2 >> 6u8) << 6u8) | (1u8 << 5u8) | ((((b2 >> 2u8)
            & 0x07) & 0x07) << 2u8) | 0x03 == b2,
        b2 & 0x1F == 0x1F && (b2 >> 5u8) & 0x01 == 0 ==> ((b2 >> 6u8) << 6u8) | (0u8 << 5u8) | 0x1F == b2,
        b2 >> 6u8 < 4,
        (b2 >> 5u8) & 0x01 == 1 || (b2 >> 5u8) & 0x01 == 0,
        (b2 >> 2u8) & 0x07 < 8,
        cs < 8 ==> cs & 0x07 == cs,
        h < 4096 && v < 4096 ==> {
            let c0 = ((h & 0x0FFF) >> 4u16) as u8;
            let c1 = ((((h & 0x0FFF) & 0x0F) << 4u16) | (((v & 0x0FFF) >> 8u16) & 0x0F)) as u8;
            let c2 = (v & 0x0FFF) as u8;
            &&& ((c0 as u16) << 4u16) | ((c1 as u16) >> 4u16) == h
            &&& (((c1 as u16) & 0x0F) << 8u16) | (c2 as u16) == v
        },
        ({
            let x = ((b0 as u16) << 4u16) | ((b1 as u16) >> 4u16);
            let y = (((b1 as u16) & 0x0F) << 8u16) | (b2 as u16);
            &&& x < 4096
            &&& y < 4096
            &&& ((x & 0x0FFF) >> 4u16) as u8 == b0
            &&& ((((x & 0x0FFF) & 0x0F) << 4u16) | (((y & 0x0FFF) >> 8u16) & 0x0F)) as u8 == b1
            &&& (y & 0x0FFF) as u8 == b2
        }),
{
}

impl<'a> ImageIcon<'a> {
    /// position_flag of a first segment.
    pub open spec fn has_position(s: Seq<u8>) -> bool {
        (s[2] >> 5u8) & 0x01 == 1
    }

    /// Offset of icon_type_length in a first segment.
    pub open spec fn type_at(s: Seq<u8>) -> int {
        if Self::has_position(s) {
            6
        } else {
            3
        }
    }

    /// End of the icon_type run in a first segment.
    pub open spec fn type_end(s: Seq<u8>) -> int {
        Self::type_at(s) + 1 + s[Self::type_at(s)]
    }

    /// The first segment carries a length-prefixed payload (modes 0 and 1).
    pub open spec fn has_payload(s: Seq<u8>) -> bool {
        s[2] >> 6u8 < 2
    }

    /// End of a first segment.
    pub open spec fn first_end(s: Seq<u8>) -> int {
        let p = Self::type_end(s);
        if Self::has_payload(s) {
            p + 1 + s[p]
        } else {
            p
        }
    }

    /// Parsing succeeds on exactly these selector bytes.
    pub open spec fn sel_ok(s: Seq<u8>) -> bool {
        &&& s.len() >= 3
        &&& if s[0] >> 4u8 == 0 {
            &&& s.len() > Self::type_at(s)
            &&& s.len() >= Self::type_end(s)
            &&& Self::has_payload(s) ==> s.len() > Self::type_end(s)
            &&& s.len() == Self::first_end(s)
        } else {
            s.len() == 3 + s[2]
        }
    }

    /// The error reported for selector bytes that do not parse.
    pub open spec fn sel_error(e: Error, s: Seq<u8>) -> bool {
        is_invalid(e, super::TAG)
    }

    /// The reserved bits of byte 1 and of the packed byte are ones.
    pub open spec fn canonical(s: Seq<u8>) -> bool {
        &&& s[1] & 0xF8 == 0xF8
        &&& s[0] >> 4u8 == 0 ==> if Self::has_position(s) {
            s[2] & 0x03 == 0x03
        } else {
            s[2] & 0x1F == 0x1F
        }
    }

    /// `self` is what parsing the selector bytes `s` yields.
    pub open spec fn decodes(&self, s: Seq<u8>) -> bool {
        &&& self.descriptor_number == s[0] >> 4u8
        &&& self.last_descriptor_number == s[0] & 0x0F
        &&& self.icon_id == s[1] & 0x07
        &&& if s[0] >> 4u8 == 0 {
            &&& self.body matches ImageIconBody::First(f)
            &&& f.icon_transport_mode == s[2] >> 6u8
            &&& if Self::has_position(s) {
                f.position == Some(
                    IconPosition {
                        coordinate_system: (s[2] >> 2u8) & 0x07,
                        icon_horizontal_origin: ((s[3] as u16) << 4u16) | ((s[4] as u16) >> 4u16),
                        icon_vertical_origin: (((s[4] as u16) & 0x0F) << 8u16) | (s[5] as u16),
                    },
                )
            } else {
                f.position is None
            }
            &&& f.icon_type@ == s.subrange(Self::type_at(s) + 1, Self::type_end(s))
            &&& f.payload@ == if Self::has_payload(s) {
                s.subrange(Self::type_end(s) + 1, Self::first_end(s))
            } else {
                Seq::empty()
            }
        } else {
            self.body matches ImageIconBody::Continuation { icon_data } && icon_data@ == s.subrange(
                3,
                s.len() as int,
            )
        }
    }

    /// The bytes of a first segment after byte 1.
    pub open spec fn first_wire(f: ImageIconFirst) -> Seq<u8> {
        (match f.position {
            Some(p) => seq![
                (f.icon_transport_mode << 6u8) | (1u8 << 5u8) | ((p.coordinate_system & 0x07) << 2u8) | 0x03,
            ] + origin_bytes(p.icon_horizontal_origin, p.icon_vertical_origin),
            None => seq![(f.icon_transport_mode << 6u8) | (0u8 << 5u8) | 0x1F],
        }) + seq![(f.icon_type@.len() % 256) as u8] + f.icon_type@ + if f.icon_transport_mode == 0
            || f.icon_transport_mode == 1 {
            seq![(f.payload@.len() % 256) as u8] + f.payload@
        } else {
            Seq::empty()
        }
    }

    /// The selector bytes written by serialization.
    pub open spec fn wire(&self) -> Seq<u8> {
        seq![
            (self.descriptor_number << 4u8) | (self.last_descriptor_number & 0x0F),
            0xF8 | (self.icon_id & 0x07),
        ] + match self.body {
            ImageIconBody::First(f) => Self::first_wire(f),
            ImageIconBody::Continuation { icon_data } => seq![(icon_data@.len() % 256) as u8] + icon_data@,
        }
    }

    /// Fields fit their widths, runs their length bytes, and the body kind
    /// matches the descriptor number.
    pub open spec fn wf(&self) -> bool {
        &&& self.descriptor_number < 16
        &&& self.last_descriptor_number < 16
        &&& self.icon_id < 8
        &&& match self.body {
            ImageIconBody::First(f) => {
                &&& self.descriptor_number == 0
                &&& f.icon_transport_mode < 4
                &&& f.position matches Some(p) ==> p.coordinate_system < 8 && p.icon_horizontal_origin
                    < 4096 && p.icon_vertical_origin < 4096
                &&& f.icon_type@.len() <= 255
                &&& f.payload@.len() <= 255
                &&& f.icon_transport_mode >= 2 ==> f.payload@.len() == 0
            },
            ImageIconBody::Continuation { icon_data } => self.descriptor_number != 0 && icon_data@.len()
                <= 255,
        }
    }

    /// Parses the image_icon body.
    pub fn parse(sel: &'a [u8]) -> (r: Result<Self, Error>)
        ensures
            r is Ok <==> Self::sel_ok(sel@),
            r matches Ok(d) ==> d.decodes(sel@),
            r matches Err(e) ==> Self::sel_error(e, sel@),
    {
        if sel.len() < 2 {
            return Err(invalid("image_icon: header truncated"));
        }
        let descriptor_number = sel[0] >> 4u8;
        let last_descriptor_number = sel[0] & 0x0F;
        let icon_id = sel[1] & 0x07;
        let body = if descriptor_number == 0 {
            if sel.len() < 3 {
                return Err(invalid("image_icon: first-segment packed byte missing"));
            }
            let packed = sel[2];
            let icon_transport_mode = packed >> 6u8;
            let position_flag = (packed >> 5u8) & 0x01;
            let mut pos: usize = 3;
            let position = if position_flag == 1 {
                let coordinate_system = (packed >> 2u8) & 0x07;
                if sel.len() < pos + 3 {
                    return Err(invalid("image_icon: origin bytes truncated"));
                }
                let b0 = sel[pos];
                let b1 = sel[pos + 1];
                let b2 = sel[pos + 2];
                let icon_horizontal_origin = ((b0 as u16) << 4u16) | ((b1 as u16) >> 4u16);
                let icon_vertical_origin = (((b1 as u16) & 0x0F) << 8u16) | (b2 as u16);
                pos = pos + 3;
                Some(IconPosition { coordinate_system, icon_horizontal_origin, icon_vertical_origin })
            } else {
                None
            };
            if sel.len() < pos + 1 {
                return Err(invalid("image_icon: icon_type_length truncated"));
            }
            let icon_type_length = sel[pos] as usize;
            pos = pos + 1;
            if sel.len() - pos < icon_type_length {
                return Err(invalid("image_icon: icon_type overruns body"));
            }
            let icon_type = &sel[pos..pos + icon_type_length];
            pos = pos + icon_type_length;
            let empty: &'a [u8] = &[];
            let payload = if icon_transport_mode == 0 || icon_transport_mode == 1 {
                if sel.len() - pos < 1 {
                    return Err(invalid("image_icon: payload length truncated"));
                }
                let payload_len = sel[pos] as usize;
                pos = pos + 1;
                if sel.len() - pos < payload_len {
                    return Err(invalid("image_icon: payload overruns body"));
                }
                let p = &sel[pos..pos + payload_len];
                pos = pos + payload_len;
                p
            } else {
                assert(empty@ =~= Seq::<u8>::empty());
                empty
            };
            if pos != sel.len() {
                return Err(invalid("image_icon: trailing bytes"));
            }
            ImageIconBody::First(ImageIconFirst { icon_transport_mode, position, icon_type, payload })
        } else {
            if sel.len() < 3 {
                return Err(invalid("image_icon: continuation length truncated"));
            }
            let icon_data_length = sel[2] as usize;
            if sel.len() - 3 < icon_data_length {
                return Err(invalid("image_icon: continuation data overruns body"));
            }
            let icon_data = &sel[3..3 + icon_data_length];
            if 3 + icon_data_length != sel.len() {
                return Err(invalid("image_icon: trailing bytes"));
            }
            ImageIconBody::Continuation { icon_data }
        };
        Ok(ImageIcon { descriptor_number, last_descriptor_number, icon_id, body })
    }

    /// Length of the selector bytes.
    pub fn serialized_len(&self) -> (n: usize)
        requires
            self.wire().len() <= usize::MAX,
        ensures
            n == self.wire().len(),
    {
        match &self.body {
            ImageIconBody::First(f) => {
                let p: usize = if f.position.is_some() {
                    3
                } else {
                    0
                };
                let m: usize = if f.icon_transport_mode == 0 || f.icon_transport_mode == 1 {
                    1 + f.payload.len()
                } else {
                    0
                };
                3 + p + 1 + f.icon_type.len() + m
            },
            ImageIconBody::Continuation { icon_data } => 3 + icon_data.len(),
        }
    }

    /// Writes the selector bytes to the front of `buf`.
    pub fn serialize_into(&self, buf: &mut [u8]) -> (r: Result<usize, Error>)
        requires
            self.wire().len() <= usize::MAX,
        ensures
            emitted(r, old(buf)@, final(buf)@, self.wire()),
    {
        let len = self.serialized_len();
        if buf.len() < len {
            return Err(Error::OutputBufferTooSmall { need: len, have: buf.len() });
        }
        let mut v: Vec<u8> = Vec::new();
        self.write_to(&mut v);
        copy_to_front(buf, &v);
        Ok(len)
    }

    /// Appends the selector bytes to `out`.
    pub fn write_to(&self, out: &mut Vec<u8>)
        ensures
            final(out)@ == old(out)@ + self.wire(),
    {
        push_u8(out, (self.descriptor_number << 4u8) | (self.last_descriptor_number & 0x0F));
        push_u8(out, 0xF8 | (self.icon_id & 0x07));
        match &self.body {
            ImageIconBody::First(f) => {
                match &f.position {
                    Some(p) => {
                        push_u8(
                            out,
                            (f.icon_transport_mode << 6u8) | (1u8 << 5u8) | ((p.coordinate_system & 0x07) << 2u8)
                                | 0x03,
                        );
                        let h = p.icon_horizontal_origin & 0x0FFF;
                        let v = p.icon_vertical_origin & 0x0FFF;
                        push_u8(out, (h >> 4u16) as u8);
                        push_u8(out, (((h & 0x0F) << 4u16) | ((v >> 8u16) & 0x0F)) as u8);
                        push_u8(out, v as u8);
                    },
                    None => {
                        push_u8(out, (f.icon_transport_mode << 6u8) | (0u8 << 5u8) | 0x1F);
                    },
                }
                push_u8(out, (f.icon_type.len() % 256) as u8);
                push_bytes(out, f.icon_type);
                if f.icon_transport_mode == 0 || f.icon_transport_mode == 1 {
                    push_u8(out, (f.payload.len() % 256) as u8);
                    push_bytes(out, f.payload);
                }
            },
            ImageIconBody::Continuation { icon_data } => {
                push_u8(out, (icon_data.len() % 256) as u8);
                push_bytes(out, icon_data);
            },
        }
        assert(out@ =~= old(out)@ + self.wire());
    }
}

/// Encoding then parsing a well-formed image_icon body gives it back.
pub proof fn lemma_image_icon_encode_parse(d: ImageIcon)
    requires
        d.wf(),
    ensures
        ImageIcon::sel_ok(d.wire()),
        d.decodes(d.wire()),
{
    let w = d.wire();
    lemma_icon_bits(0, 0, 0, 0, 0, d.descriptor_number, d.last_descriptor_number, 0, 0, 0);
    lemma_icon_bits(0, 0, 0, 0, 0, d.icon_id, 0, 0, 0, 0);
    match d.body {
        ImageIconBody::First(f) => {
            let t0: int = match f.position {
                Some(p) => {
                    lemma_icon_bits(
                        0,
                        0,
                        0,
                        p.icon_horizontal_origin,
                        p.icon_vertical_origin,
                        0,
                        0,
                        f.icon_transport_mode,
                        p.coordinate_system,
                        1,
                    );
                    lemma_icon_bits(0, 0, 0, 0, 0, 0, 0, 0, p.coordinate_system, 0);
                    6
                },
                None => {
                    lemma_icon_bits(0, 0, 0, 0, 0, 0, 0, f.icon_transport_mode, 0, 0);
                    3
                },
            };
            assert(ImageIcon::type_at(w) == t0);
            let t1 = t0 + 1 + f.icon_type@.len();
            assert(w.subrange(t0 + 1, t1) =~= f.icon_type@);
            if f.icon_transport_mode == 0 || f.icon_transport_mode == 1 {
                assert(w.subrange(t1 + 1, w.len() as int) =~= f.payload@);
            } else {
                assert(f.payload@ =~= Seq::<u8>::empty());
            }
        },
        ImageIconBody::Continuation { icon_data } => {
            assert(w.subrange(3, w.len() as int) =~= icon_data@);
        },
    }
}

/// Parsing then encoding canonical image_icon bytes gives them back.
pub proof fn lemma_image_icon_parse_encode(s: Seq<u8>, d: ImageIcon)
    requires
        ImageIcon::sel_ok(s),
        ImageIcon::canonical(s),
        d.decodes(s),
    ensures
        d.wire() == s,
        d.wf(),
{
    lemma_icon_bits(s[0], s[1], s[2], 0, 0, 0, 0, 0, 0, 0);
    let w = d.wire();
    assert(w[0] == s[0] && w[1] == s[1]);
    match d.body {
        ImageIconBody::First(f) => {
            let t0 = ImageIcon::type_at(s);
            let t1 = ImageIcon::type_end(s);
            let head = ImageIcon::first_wire(f);
            if ImageIcon::has_position(s) {
                lemma_icon_bits(s[3], s[4], s[5], 0, 0, 0, 0, 0, 0, 0);
                let p = f.position.unwrap();
                assert(origin_bytes(p.icon_horizontal_origin, p.icon_vertical_origin) =~= s.subrange(3, 6));
                assert(head.subrange(0, 4) =~= s.subrange(2, 6));
            } else {
                assert(head[0] == s[2]);
            }
            assert(head.subrange(t0 - 2, t1 - 2) =~= s.subrange(t0, t1));
            if ImageIcon::has_payload(s) {
                assert(head.subrange(t1 - 2, head.len() as int) =~= s.subrange(t1, s.len() as int));
            } else {
                assert(f.payload@ =~= Seq::<u8>::empty());
            }
            assert(head =~= s.subrange(2, s.len() as int));
        },
        ImageIconBody::Continuation { icon_data } => {},
    }
    assert(w =~= s);
}

/// A parsed ImageIcon is well formed: it encodes again, and parsing that encoding
/// yields it back.
pub proof fn lemma_image_icon_reparse(s: Seq<u8>, d: ImageIcon)
    requires
        ImageIcon::sel_ok(s),
        d.decodes(s),
    ensures
        d.wf(),
        ImageIcon::sel_ok(d.wire()),
        d.decodes(d.wire()),
        d.wire().len() <= s.len(),
{
    lemma_icon_bits(s[0], s[1], s[2], 0, 0, 0, 0, 0, 0, 0);
    if ImageIcon::has_position(s) {
        lemma_icon_bits(s[3], s[4], s[5], 0, 0, 0, 0, 0, 0, 0);
    }
    lemma_image_icon_encode_parse(d);
}

/// Parsing, encoding and parsing again gives the same value: whatever parses
/// from the encoding of a parsed ImageIcon equals it.
pub proof fn lemma_image_icon_round_trip(s: Seq<u8>, d: ImageIcon, d2: ImageIcon)
    requires
        ImageIcon::sel_ok(s),
        d.decodes(s),
        d2.decodes(d.wire()),
    ensures
        d2 == d,
{
    lemma_image_icon_reparse(s, d);
    match (d2.body, d.body) {
        (ImageIconBody::First(f2), ImageIconBody::First(f)) => {
            assert(f2.icon_type =~= f.icon_type);
            assert(f2.payload =~= f.payload);
        },
        (ImageIconBody::Continuation { icon_data: c2 }, ImageIconBody::Continuation { icon_data: c }) => {
            assert(c2 =~= c);
        },
        _ => {},
    }
}

/// The layout of a parsed image icon body, by the literal fields of EN 300 468:
/// descriptor_number (high nibble of byte 0) 0 carries the icon metadata, any
/// other value a continuation chunk; in the metadata, icon_transport_mode is the
/// top two bits of byte 2 and position_flag (bit 5) says whether the position is
/// present.
pub proof fn lemma_image_icon_layout(s: Seq<u8>, d: ImageIcon)
    requires
        d.decodes(s),
    ensures
        (d.body is First) == (s[0] >> 4u8 == 0),
        (d.body is Continuation) == (s[0] >> 4u8 != 0),
        s[0] >> 4u8 == 0 ==> (d.body matches ImageIconBody::First(f) && f.icon_transport_mode == s[2] >> 6u8 && (
        f.position is Some) == ((s[2] >> 5u8) & 0x01 == 1)),
        d.descriptor_number == s[0] >> 4u8,
        d.last_descriptor_number == s[0] & 0x0F,
{
}

} // verus!
