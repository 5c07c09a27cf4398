//! T2-MI Descriptor — ETSI EN 300 468 §6.4.14 (tag_extension 0x11).

use super::ExtensionBodyDef;
use crate::error::{is_too_short, Error};
use crate::wire::{bit, push_bytes, push_u8};
use crate::descriptors::emitted;
use crate::wire::copy_to_front;
use vstd::prelude::*;

verus! {

/// Minimum T2MI selector length: 3 fixed bytes before the reserved tail.
pub const T2MI_MIN_LEN: usize = 3;

/// T2-MI body (Table 158).
#[derive(Debug, Clone, PartialEq, Eq)]
pub struct T2mi<'a> {
    /// t2mi_stream_id(3).
    pub t2mi_stream_id: u8,
    /// num_t2mi_streams_minus_one(3).
    pub num_t2mi_streams_minus_one: u8,
    /// pcr_iscr_common_clock_flag(1).
    pub pcr_iscr_common_clock_flag: bool,
    /// Trailing reserved bytes, kept verbatim.
    pub reserved_tail: &'a [u8],
}

impl ExtensionBodyDef for T2mi<'_> {
    const TAG_EXTENSION: u8 = 0x11;
    const NAME: &'static str = "T2MI";
}

proof fn lemma_t2mi_bits(a: u8, b: u8, c: u8)
    by (bit_vector)
    ensures
        a < 8 ==> a & 0x07 == a,
        a & 0xF8 == 0 ==> a & 0x07 == a,
        (a & 0x07) < 8,
        c & 0xFE == 0 ==> (if c & 0x01 != 0 { 1u8 } else { 0u8 }) == c,
        (1u8 & 0x01 != 0) && !(0u8 & 0x01 != 0),
{
}

impl<'a> T2mi<'a> {
    /// Parsing succeeds on exactly these selector bytes.
    pub open spec fn sel_ok(s: Seq<u8>) -> bool {
        s.len() >= 3
    }

    /// The error reported for selector bytes that do not parse.
    pub open spec fn sel_error(e: Error, s: Seq<u8>) -> bool {
        is_too_short(e, 3, s.len() as int)
    }

    /// The reserved bits are zero, as serialization writes them.
    pub open spec fn canonical(s: Seq<u8>) -> bool {
        s[0] & 0xF8 == 0 && s[1] & 0xF8 == 0 && s[2] & 0xFE == 0
    }

    /// `self` is what parsing the selector bytes `s` yields.
    pub open spec fn decodes(&self, s: Seq<u8>) -> bool {
        &&& self.t2mi_stream_id == s[0] & 0x07
        &&& self.num_t2mi_streams_minus_one == s[1] & 0x07
        &&& self.pcr_iscr_common_clock_flag == (s[2] & 0x01 != 0)
        &&& self.reserved_tail@ == s.subrange(3, s.len() as int)
    }

    /// The selector bytes written by `serialize_into`.
    pub open spec fn wire(&self) -> Seq<u8> {
        seq![
            self.t2mi_stream_id & 0x07,
            self.num_t2mi_streams_minus_one & 0x07,
            bit(self.pcr_iscr_common_clock_flag),
        ] + self.reserved_tail@
    }

    /// The 3-bit fields fit.
    pub open spec fn wf(&self) -> bool {
        self.t2mi_stream_id < 8 && self.num_t2mi_streams_minus_one < 8
    }

    /// Parses the T2-MI body.
    pub fn parse(sel: &'a [u8]) -> (r: Result<Self, Error>)
        ensures
            r is Ok <==> Self::sel_ok(sel@),
            r matches Ok(d) ==> d.decodes(sel@),
            r matches Err(e) ==> Self::sel_error(e, sel@),
    {
        if sel.len() < T2MI_MIN_LEN {
            return Err(Error::BufferTooShort { need: T2MI_MIN_LEN, have: sel.len(), what: "T2MI body" });
        }
        Ok(T2mi {
            t2mi_stream_id: sel[0] & 0x07,
            num_t2mi_streams_minus_one: sel[1] & 0x07,
            pcr_iscr_common_clock_flag: (sel[2] & 0x01) != 0,
            reserved_tail: &sel[T2MI_MIN_LEN..sel.len()],
        })
    }

    /// Length of the selector bytes.
    pub fn serialized_len(&self) -> (n: usize)
        requires
            self.wire().len() <= usize::MAX,
        ensures
            n == self.wire().len(),
    {
        T2MI_MIN_LEN + self.reserved_tail.len()
    }

    /// Writes the selector bytes to the front of `buf`.
    pub fn serialize_into(&self, buf: &mut [u8]) -> (r: Result<usize, Error>)
        requires
            self.wire().len() <= usize::MAX,
        ensures
            emitted(r, old(buf)@, final(buf)@, self.wire()),
    {
        let len = self.serialized_len();
        if buf.len() < len {
            return Err(Error::OutputBufferTooSmall { need: len, have: buf.len() });
        }
        let mut v: Vec<u8> = Vec::new();
        self.write_to(&mut v);
        copy_to_front(buf, &v);
        Ok(len)
    }

    /// Appends the selector bytes to `out`.
    pub fn write_to(&self, out: &mut Vec<u8>)
        ensures
            final(out)@ == old(out)@ + self.wire(),
    {
        push_u8(out, self.t2mi_stream_id & 0x07);
        push_u8(out, self.num_t2mi_streams_minus_one & 0x07);
        push_u8(out, if self.pcr_iscr_common_clock_flag { 1 } else { 0 });
        push_bytes(out, self.reserved_tail);
        assert(out@ =~= old(out)@ + self.wire());
    }
}

/// Encoding then parsing a well-formed T2-MI body gives it back.
pub proof fn lemma_t2mi_encode_parse(d: T2mi)
    requires
        d.wf(),
    ensures
        T2mi::sel_ok(d.wire()),
        d.decodes(d.wire()),
{
    let w = d.wire();
    lemma_t2mi_bits(d.t2mi_stream_id, 0, 0);
    lemma_t2mi_bits(d.num_t2mi_streams_minus_one, 0, 0);
    assert(w.subrange(3, w.len() as int) =~= d.reserved_tail@);
}

/// Parsing then encoding canonical T2-MI bytes gives them back.
pub proof fn lemma_t2mi_parse_encode(s: Seq<u8>, d: T2mi)
    requires
        T2mi::sel_ok(s),
        T2mi::canonical(s),
        d.decodes(s),
    ensures
        d.wire() == s,
        d.wf(),
{
    lemma_t2mi_bits(s[0], 0, s[2]);
    lemma_t2mi_bits(s[1], 0, s[2]);
    lemma_t2mi_bits(d.t2mi_stream_id, 0, 0);
    lemma_t2mi_bits(d.num_t2mi_streams_minus_one, 0, 0);
    assert(d.wire() =~= s);
}

/// A parsed T2mi is well formed: it encodes again, and parsing that encoding
/// yields it back.
pub proof fn lemma_t2mi_reparse(s: Seq<u8>, d: T2mi)
    requires
        T2mi::sel_ok(s),
        d.decodes(s),
    ensures
        d.wf(),
        T2mi::sel_ok(d.wire()),
        d.decodes(d.wire()),
        d.wire().len() <= s.len(),
{
    lemma_t2mi_bits(s[0], 0, s[2]);
    lemma_t2mi_bits(s[1], 0, s[2]);
    lemma_t2mi_encode_parse(d);
}

/// Parsing, encoding and parsing again gives the same value: whatever parses
/// from the encoding of a parsed T2mi equals it.
pub proof fn lemma_t2mi_round_trip(s: Seq<u8>, d: T2mi, d2: T2mi)
    requires
        T2mi::sel_ok(s),
        d.decodes(s),
        d2.decodes(d.wire()),
    ensures
        d2 == d,
{
    lemma_t2mi_reparse(s, d);
    assert(d2.reserved_tail =~= d.reserved_tail);
}

} // verus!
