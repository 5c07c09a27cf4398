//! Audio Preselection Descriptor — ETSI EN 300 468 §6.4.1 (tag_extension 0x19).

use super::ExtensionBodyDef;
use super::invalid;
use crate::error::{is_invalid, Error};
use crate::wire::{push_bytes, push_u8};
use crate::descriptors::emitted;
use crate::wire::copy_to_front;
use vstd::prelude::*;

verus! {

impl ExtensionBodyDef for AudioPreselection<'_> {
    const TAG_EXTENSION: u8 = 0x19;
    const NAME: &'static str = "AUDIO_PRESELECTION";
}

/// audio_preselection body (Table 110) — the preselection loop is kept raw.
#[derive(Debug, Clone, PartialEq, Eq)]
pub struct AudioPreselection<'a> {
    /// num_preselections(5).
    pub num_preselections: u8,
    /// Raw preselection loop bytes.
    pub preselection_loop: &'a [u8],
}

proof fn lemma_presel_bits(b: u8, n: u8)
    by (bit_vector)
    ensures
        n < 32 ==> (n << 3u8) >> 3u8 == n,
        b & 0x07 == 0 ==> (b >> 3u8) << 3u8 == b,
        b >> 3u8 < 32,
{
}

impl<'a> AudioPreselection<'a> {
    /// Parsing succeeds on exactly these selector bytes.
    pub open spec fn sel_ok(s: Seq<u8>) -> bool {
        s.len() >= 1
    }

    /// The error reported for selector bytes that do not parse.
    pub open spec fn sel_error(e: Error, s: Seq<u8>) -> bool {
        is_invalid(e, super::TAG)
    }

    /// The reserved low bits of the count byte are zero, as serialization writes them.
    pub open spec fn canonical(s: Seq<u8>) -> bool {
        s[0] & 0x07 == 0
    }

    /// `self` is what parsing the selector bytes `s` yields.
    pub open spec fn decodes(&self, s: Seq<u8>) -> bool {
        &&& self.num_preselections == s[0] >> 3u8
        &&& self.preselection_loop@ == s.subrange(1, s.len() as int)
    }

    /// The selector bytes written by `serialize_into`.
    pub open spec fn wire(&self) -> Seq<u8> {
        seq![self.num_preselections << 3u8] + self.preselection_loop@
    }

    /// The 5-bit count fits.
    pub open spec fn wf(&self) -> bool {
        self.num_preselections < 32
    }

    /// Parses the audio_preselection body.
    pub fn parse(sel: &'a [u8]) -> (r: Result<Self, Error>)
        ensures
            r is Ok <==> Self::sel_ok(sel@),
            r matches Ok(d) ==> d.decodes(sel@),
            r matches Err(e) ==> Self::sel_error(e, sel@),
    {
        if sel.len() == 0 {
            return Err(invalid("audio_preselection: count byte missing"));
        }
        Ok(AudioPreselection {
            num_preselections: sel[0] >> 3u8,
            preselection_loop: &sel[1..sel.len()],
        })
    }

    /// Length of the selector bytes.
    pub fn serialized_len(&self) -> (n: usize)
        requires
            self.wire().len() <= usize::MAX,
        ensures
            n == self.wire().len(),
    {
        1 + self.preselection_loop.len()
    }

    /// Writes the selector bytes to the front of `buf`.
    pub fn serialize_into(&self, buf: &mut [u8]) -> (r: Result<usize, Error>)
        requires
            self.wire().len() <= usize::MAX,
        ensures
            emitted(r, old(buf)@, final(buf)@, self.wire()),
    {
        let len = self.serialized_len();
        if buf.len() < len {
            return Err(Error::OutputBufferTooSmall { need: len, have: buf.len() });
        }
        let mut v: Vec<u8> = Vec::new();
        self.write_to(&mut v);
        copy_to_front(buf, &v);
        Ok(len)
    }

    /// Appends the selector bytes to `out`.
    pub fn write_to(&self, out: &mut Vec<u8>)
        ensures
            final(out)@ == old(out)@ + self.wire(),
    {
        push_u8(out, self.num_preselections << 3u8);
        push_bytes(out, self.preselection_loop);
        assert(out@ =~= old(out)@ + self.wire());
    }
}

/// Encoding then parsing a well-formed audio_preselection body gives it back.
pub proof fn lemma_audio_preselection_encode_parse(d: AudioPreselection)
    requires
        d.wf(),
    ensures
        AudioPreselection::sel_ok(d.wire()),
        d.decodes(d.wire()),
{
    lemma_presel_bits(0, d.num_preselections);
    let w = d.wire();
    assert(w.subrange(1, w.len() as int) =~= d.preselection_loop@);
}

/// Parsing then encoding canonical audio_preselection bytes gives them back.
pub proof fn lemma_audio_preselection_parse_encode(s: Seq<u8>, d: AudioPreselection)
    requires
        AudioPreselection::sel_ok(s),
        AudioPreselection::canonical(s),
        d.decodes(s),
    ensures
        d.wire() == s,
        d.wf(),
{
    lemma_presel_bits(s[0], 0);
    assert(d.wire() =~= s);
}

/// A parsed AudioPreselection is well formed: it encodes again, and parsing that encoding
/// yields it back.
pub proof fn lemma_audio_preselection_reparse(s: Seq<u8>, d: AudioPreselection)
    requires
        AudioPreselection::sel_ok(s),
        d.decodes(s),
    ensures
        d.wf(),
        AudioPreselection::sel_ok(d.wire()),
        d.decodes(d.wire()),
        d.wire().len() <= s.len(),
{
    lemma_presel_bits(s[0], 0);
    lemma_audio_preselection_encode_parse(d);
}

/// Parsing, encoding and parsing again gives the same value: whatever parses
/// from the encoding of a parsed AudioPreselection equals it.
pub proof fn lemma_audio_preselection_round_trip(s: Seq<u8>, d: AudioPreselection, d2: AudioPreselection)
    requires
        AudioPreselection::sel_ok(s),
        d.decodes(s),
        d2.decodes(d.wire()),
    ensures
        d2 == d,
{
    lemma_audio_preselection_reparse(s, d);
    assert(d2.preselection_loop =~= d.preselection_loop);
}

} // verus!
