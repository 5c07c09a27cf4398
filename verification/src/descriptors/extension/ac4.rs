//! AC-4 Descriptor — ETSI EN 300 468 annex D (tag_extension 0x15).

use super::ExtensionBodyDef;
use super::invalid;
use crate::error::{is_invalid, Error};
use crate::wire::{bit, push_bytes, push_u8};
use crate::descriptors::emitted;
use crate::wire::copy_to_front;
use vstd::prelude::*;

verus! {

impl ExtensionBodyDef for Ac4<'_> {
    const TAG_EXTENSION: u8 = 0x15;
    const NAME: &'static str = "AC4";
}

/// AC-4 body (annex D): flags and config typed, `toc` and `additional_info` raw.
#[derive(Debug, Clone, PartialEq, Eq)]
pub struct Ac4<'a> {
    /// ac4_config_flag(1).
    pub ac4_config_flag: bool,
    /// ac4_toc_flag(1).
    pub ac4_toc_flag: bool,
    /// ac4_dialog_enhancement_enabled(1), present iff `ac4_config_flag`.
    pub ac4_dialog_enhancement_enabled: Option<bool>,
    /// ac4_channel_mode(2), present iff `ac4_config_flag`.
    pub ac4_channel_mode: Option<u8>,
    /// Length-delimited `ac4_toc` bytes, present iff `ac4_toc_flag`.
    pub toc: Option<&'a [u8]>,
    /// Trailing additional_info bytes.
    pub additional_info: &'a [u8],
}

proof fn lemma_ac4_bits(f: u8, c: u8, a: u8, b: u8, cm: u8)
    by (bit_vector)
    requires
        a <= 1,
        b <= 1,
    ensures
        ((a << 7u8) | (b << 6u8)) & 0x80 != 0 <==> a == 1,
        ((a << 7u8) | (b << 6u8)) & 0x40 != 0 <==> b == 1,
        (((a << 7u8) | ((cm & 0x03) << 5u8)) & 0x80 != 0) == (a == 1),
        cm < 4 ==> (((a << 7u8) | ((cm & 0x03) << 5u8)) >> 5u8) & 0x03 == cm,
        f & 0x3F == 0 ==> ((if f & 0x80 != 0 { 1u8 } else { 0u8 }) << 7u8) | ((if f & 0x40 != 0 { 1u8 } else { 0u8 }) << 6u8) == f,
        c & 0x1F == 0 ==> ((if c & 0x80 != 0 { 1u8 } else { 0u8 }) << 7u8) | ((((c >> 5u8) & 0x03) & 0x03) << 5u8) == c,
        (c >> 5u8) & 0x03 < 4,
{
}

impl<'a> Ac4<'a> {
    /// Position after the flags byte and the optional config byte.
    pub open spec fn toc_start(s: Seq<u8>) -> int {
        if s[0] & 0x80 != 0 {
            2
        } else {
            1
        }
    }

    /// Position of the additional_info bytes.
    pub open spec fn info_start(s: Seq<u8>) -> int {
        let p = Self::toc_start(s);
        if s[0] & 0x40 != 0 {
            p + 1 + s[p]
        } else {
            p
        }
    }

    /// Parsing succeeds on exactly these selector bytes.
    pub open spec fn sel_ok(s: Seq<u8>) -> bool {
        &&& s.len() >= 1
        &&& s.len() >= Self::toc_start(s)
        &&& s[0] & 0x40 != 0 ==> s.len() >= Self::toc_start(s) + 1
        &&& s.len() >= Self::info_start(s)
    }

    /// The error reported for selector bytes that do not parse.
    pub open spec fn sel_error(e: Error, s: Seq<u8>) -> bool {
        is_invalid(e, super::TAG)
    }

    /// The reserved bits of the flags and config bytes are zero.
    pub open spec fn canonical(s: Seq<u8>) -> bool {
        s[0] & 0x3F == 0 && (s[0] & 0x80 != 0 ==> s[1] & 0x1F == 0)
    }

    /// `self` is what parsing the selector bytes `s` yields.
    pub open spec fn decodes(&self, s: Seq<u8>) -> bool {
        let p = Self::toc_start(s);
        let q = Self::info_start(s);
        &&& self.ac4_config_flag == (s[0] & 0x80 != 0)
        &&& self.ac4_toc_flag == (s[0] & 0x40 != 0)
        &&& if s[0] & 0x80 != 0 {
            self.ac4_dialog_enhancement_enabled == Some(s[1] & 0x80 != 0)
                && self.ac4_channel_mode == Some((s[1] >> 5u8) & 0x03)
        } else {
            self.ac4_dialog_enhancement_enabled is None && self.ac4_channel_mode is None
        }
        &&& if s[0] & 0x40 != 0 {
            self.toc matches Some(t) && t@ == s.subrange(p + 1, q)
        } else {
            self.toc is None
        }
        &&& self.additional_info@ == s.subrange(q, s.len() as int)
    }

    /// The optional config byte.
    pub open spec fn config_wire(&self) -> Seq<u8> {
        if self.ac4_config_flag {
            seq![
                (bit(self.ac4_dialog_enhancement_enabled.unwrap_or(false)) << 7u8) | ((
                self.ac4_channel_mode.unwrap_or(0) & 0x03) << 5u8),
            ]
        } else {
            Seq::empty()
        }
    }

    /// The optional length-prefixed TOC.
    pub open spec fn toc_wire(&self) -> Seq<u8> {
        match self.toc {
            Some(t) => seq![(t@.len() % 256) as u8] + t@,
            None => Seq::empty(),
        }
    }

    /// The selector bytes written by `serialize_into`.
    pub open spec fn wire(&self) -> Seq<u8> {
        seq![(bit(self.ac4_config_flag) << 7u8) | (bit(self.ac4_toc_flag) << 6u8)] + self.config_wire()
            + self.toc_wire() + self.additional_info@
    }

    /// Optional parts are present exactly as their flags say and the fields fit.
    pub open spec fn wf(&self) -> bool {
        &&& (self.ac4_dialog_enhancement_enabled is Some) == self.ac4_config_flag
        &&& (self.ac4_channel_mode is Some) == self.ac4_config_flag
        &&& self.ac4_channel_mode.unwrap_or(0) < 4
        &&& (self.toc is Some) == self.ac4_toc_flag
        &&& self.toc matches Some(t) ==> t@.len() <= 255
    }

    /// Parses the AC-4 body.
    pub fn parse(sel: &'a [u8]) -> (r: Result<Self, Error>)
        ensures
            r is Ok <==> Self::sel_ok(sel@),
            r matches Ok(d) ==> d.decodes(sel@),
            r matches Err(e) ==> Self::sel_error(e, sel@),
    {
        if sel.len() == 0 {
            return Err(invalid("AC-4: flags byte missing"));
        }
        let flags = sel[0];
        let ac4_config_flag = (flags & 0x80) != 0;
        let ac4_toc_flag = (flags & 0x40) != 0;
        let mut pos: usize = 1;
        let mut de: Option<bool> = None;
        let mut cm: Option<u8> = None;
        if ac4_config_flag {
            if sel.len() < pos + 1 {
                return Err(invalid("AC-4: config byte truncated"));
            }
            let c = sel[pos];
            pos = pos + 1;
            de = Some((c & 0x80) != 0);
            cm = Some((c >> 5u8) & 0x03);
        }
        let mut toc: Option<&'a [u8]> = None;
        if ac4_toc_flag {
            if sel.len() < pos + 1 {
                return Err(invalid("AC-4: toc length truncated"));
            }
            let toc_len = sel[pos] as usize;
            pos = pos + 1;
            if sel.len() < pos + toc_len {
                return Err(invalid("AC-4: toc overruns body"));
            }
            toc = Some(&sel[pos..pos + toc_len]);
            pos = pos + toc_len;
        }
        Ok(Ac4 {
            ac4_config_flag,
            ac4_toc_flag,
            ac4_dialog_enhancement_enabled: de,
            ac4_channel_mode: cm,
            toc,
            additional_info: &sel[pos..sel.len()],
        })
    }

    /// Length of the selector bytes.
    pub fn serialized_len(&self) -> (n: usize)
        requires
            self.wire().len() <= usize::MAX,
        ensures
            n == self.wire().len(),
    {
        let config: usize = if self.ac4_config_flag {
            1
        } else {
            0
        };
        let toc: usize = match self.toc {
            Some(t) => 1 + t.len(),
            None => 0,
        };
        1 + config + toc + self.additional_info.len()
    }

    /// Writes the selector bytes to the front of `buf`.
    pub fn serialize_into(&self, buf: &mut [u8]) -> (r: Result<usize, Error>)
        requires
            self.wire().len() <= usize::MAX,
        ensures
            emitted(r, old(buf)@, final(buf)@, self.wire()),
    {
        let len = self.serialized_len();
        if buf.len() < len {
            return Err(Error::OutputBufferTooSmall { need: len, have: buf.len() });
        }
        let mut v: Vec<u8> = Vec::new();
        self.write_to(&mut v);
        copy_to_front(buf, &v);
        Ok(len)
    }

    /// Appends the selector bytes to `out`.
    pub fn write_to(&self, out: &mut Vec<u8>)
        ensures
            final(out)@ == old(out)@ + self.wire(),
    {
        let cf: u8 = if self.ac4_config_flag {
            1
        } else {
            0
        };
        let tf: u8 = if self.ac4_toc_flag {
            1
        } else {
            0
        };
        push_u8(out, (cf << 7u8) | (tf << 6u8));
        if self.ac4_config_flag {
            let de: u8 = match self.ac4_dialog_enhancement_enabled {
                Some(true) => 1,
                _ => 0,
            };
            let cm: u8 = match self.ac4_channel_mode {
                Some(v) => v,
                None => 0,
            };
            push_u8(out, (de << 7u8) | ((cm & 0x03) << 5u8));
        }
        match self.toc {
            Some(t) => {
                push_u8(out, (t.len() % 256) as u8);
                push_bytes(out, t);
            },
            None => {},
        }
        push_bytes(out, self.additional_info);
        assert(out@ =~= old(out)@ + self.wire());
    }
}

/// Encoding then parsing a well-formed AC-4 body gives it back.
pub proof fn lemma_ac4_encode_parse(d: Ac4)
    requires
        d.wf(),
    ensures
        Ac4::sel_ok(d.wire()),
        d.decodes(d.wire()),
{
    let w = d.wire();
    lemma_ac4_bits(0, 0, bit(d.ac4_config_flag), bit(d.ac4_toc_flag), 0);
    lemma_ac4_bits(
        0,
        0,
        bit(d.ac4_dialog_enhancement_enabled.unwrap_or(false)),
        0,
        d.ac4_channel_mode.unwrap_or(0),
    );
    let p: int = if d.ac4_config_flag {
        2
    } else {
        1
    };
    assert(w.subrange(0, p) =~= seq![w[0]] + d.config_wire());
    match d.toc {
        Some(t) => {
            let q = p + 1 + t@.len();
            assert(w[p] == t@.len());
            assert(w.subrange(p + 1, q) =~= t@);
            assert(w.subrange(q, w.len() as int) =~= d.additional_info@);
        },
        None => {
            assert(w.subrange(p, w.len() as int) =~= d.additional_info@);
        },
    }
}

/// Parsing then encoding canonical AC-4 bytes gives them back.
pub proof fn lemma_ac4_parse_encode(s: Seq<u8>, d: Ac4)
    requires
        Ac4::sel_ok(s),
        Ac4::canonical(s),
        d.decodes(s),
    ensures
        d.wire() == s,
        d.wf(),
{
    lemma_ac4_bits(s[0], s[1], 0, 0, 0);
    assert(d.wire() =~= s);
}

/// A parsed Ac4 is well formed: it encodes again, and parsing that encoding
/// yields it back.
pub proof fn lemma_ac4_reparse(s: Seq<u8>, d: Ac4)
    requires
        Ac4::sel_ok(s),
        d.decodes(s),
    ensures
        d.wf(),
        Ac4::sel_ok(d.wire()),
        d.decodes(d.wire()),
        d.wire().len() <= s.len(),
{
    lemma_ac4_bits(s[0], s[1], 0, 0, 0);
    lemma_ac4_encode_parse(d);
}

/// Parsing, encoding and parsing again gives the same value: whatever parses
/// from the encoding of a parsed Ac4 equals it.
pub proof fn lemma_ac4_round_trip(s: Seq<u8>, d: Ac4, d2: Ac4)
    requires
        Ac4::sel_ok(s),
        d.decodes(s),
        d2.decodes(d.wire()),
    ensures
        d2 == d,
{
    lemma_ac4_reparse(s, d);
    if d.toc is Some {
        assert(d2.toc.unwrap() =~= d.toc.unwrap());
    }
    assert(d2.additional_info =~= d.additional_info);
}

} // verus!
