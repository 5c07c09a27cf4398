//! Supplementary Audio Descriptor — ETSI EN 300 468 §6.4.11 (tag_extension 0x06).

use super::ExtensionBodyDef;
use super::{invalid, ISO_639_LEN};
use crate::error::{is_invalid, Error};
use crate::text::LangCode;
use crate::wire::{bit, code_bytes, push_bytes, push_code, push_u8, read_code};
use crate::descriptors::emitted;
use crate::wire::copy_to_front;
use vstd::prelude::*;

verus! {

impl ExtensionBodyDef for SupplementaryAudio<'_> {
    const TAG_EXTENSION: u8 = 0x06;
    const NAME: &'static str = "SUPPLEMENTARY_AUDIO";
}

/// supplementary_audio body (Table 153).
#[derive(Debug, Clone, PartialEq, Eq)]
pub struct SupplementaryAudio<'a> {
    /// mix_type(1) — Table 154.
    pub mix_type: bool,
    /// editorial_classification(5) — Table 155.
    pub editorial_classification: u8,
    /// language_code_present(1).
    pub language_code_present: bool,
    /// ISO_639_language_code(24), present iff `language_code_present`.
    pub iso_639_language_code: Option<LangCode>,
    /// Trailing private_data_byte run.
    pub private_data: &'a [u8],
}

/// The flags byte: mix_type(1) | editorial_classification(5) | reserved(1)=1 | language_code_present(1).
pub open spec fn supp_flags(mix: bool, ed: u8, lang: bool) -> u8 {
    (bit(mix) << 7u8) | ((ed & 0x1F) << 2u8) | 0x02 | bit(lang)
}

proof fn lemma_supp_flags(f: u8, m: u8, ed: u8, l: u8)
    by (bit_vector)
    requires
        m <= 1,
        l <= 1,
        ed < 32,
    ensures
        ((m << 7u8) | ((ed & 0x1F) << 2u8) | 0x02 | l) & 0x80 != 0 <==> m == 1,
        (((m << 7u8) | ((ed & 0x1F) << 2u8) | 0x02 | l) >> 2u8) & 0x1F == ed,
        ((m << 7u8) | ((ed & 0x1F) << 2u8) | 0x02 | l) & 0x01 != 0 <==> l == 1,
        (f >> 2u8) & 0x1F < 32,
        f & 0x02 != 0 ==> (((if f & 0x80 != 0 { 1u8 } else { 0u8 }) << 7u8) | ((((f >> 2u8) & 0x1F)
            & 0x1F) << 2u8) | 0x02 | (if f & 0x01 != 0 { 1u8 } else { 0u8 })) == f,
{
}

impl<'a> SupplementaryAudio<'a> {
    /// Position of the private data in the selector bytes `s`.
    pub open spec fn private_start(s: Seq<u8>) -> int {
        if s[0] & 0x01 != 0 {
            4
        } else {
            1
        }
    }

    /// Parsing succeeds on exactly these selector bytes.
    pub open spec fn sel_ok(s: Seq<u8>) -> bool {
        s.len() >= 1 && s.len() >= Self::private_start(s)
    }

    /// The error reported for selector bytes that do not parse.
    pub open spec fn sel_error(e: Error, s: Seq<u8>) -> bool {
        is_invalid(e, super::TAG)
    }

    /// The selector bytes are exactly what `serialize_into` writes for their parse.
    pub open spec fn canonical(s: Seq<u8>) -> bool {
        s[0] & 0x02 != 0
    }

    /// `self` is what parsing the selector bytes `s` yields.
    pub open spec fn decodes(&self, s: Seq<u8>) -> bool {
        let f = s[0];
        &&& self.mix_type == (f & 0x80 != 0)
        &&& self.editorial_classification == (f >> 2u8) & 0x1F
        &&& self.language_code_present == (f & 0x01 != 0)
        &&& if f & 0x01 != 0 {
            self.iso_639_language_code matches Some(c) && code_bytes(c.0) == s.subrange(1, 4)
        } else {
            self.iso_639_language_code is None
        }
        &&& self.private_data@ == s.subrange(Self::private_start(s), s.len() as int)
    }

    /// The optional language code bytes.
    pub open spec fn code_wire(&self) -> Seq<u8> {
        match self.iso_639_language_code {
            Some(c) => code_bytes(c.0),
            None => Seq::empty(),
        }
    }

    /// The selector bytes written by `serialize_into`.
    pub open spec fn wire(&self) -> Seq<u8> {
        seq![supp_flags(self.mix_type, self.editorial_classification, self.language_code_present)]
            + self.code_wire() + self.private_data@
    }

    /// The fields fit their bit widths and the language flag matches the code's presence.
    pub open spec fn wf(&self) -> bool {
        self.editorial_classification < 32 && self.language_code_present
            == (self.iso_639_language_code is Some)
    }

    /// Parses the supplementary_audio body.
    pub fn parse(sel: &'a [u8]) -> (r: Result<Self, Error>)
        ensures
            r is Ok <==> Self::sel_ok(sel@),
            r matches Ok(d) ==> d.decodes(sel@),
            r matches Err(e) ==> Self::sel_error(e, sel@),
    {
        if sel.len() == 0 {
            return Err(invalid("supplementary_audio: flags byte missing"));
        }
        let flags = sel[0];
        let mix_type = (flags & 0x80) != 0;
        let editorial_classification = (flags >> 2u8) & 0x1F;
        let language_code_present = (flags & 0x01) != 0;
        let mut pos: usize = 1;
        let iso_639_language_code = if language_code_present {
            if sel.len() < pos + ISO_639_LEN {
                return Err(invalid("supplementary_audio: language code truncated"));
            }
            let lc = read_code(sel, pos);
            pos = pos + ISO_639_LEN;
            Some(LangCode(lc))
        } else {
            None
        };
        Ok(SupplementaryAudio {
            mix_type,
            editorial_classification,
            language_code_present,
            iso_639_language_code,
            private_data: &sel[pos..sel.len()],
        })
    }

    /// Length of the selector bytes.
    pub fn serialized_len(&self) -> (n: usize)
        requires
            self.wire().len() <= usize::MAX,
        ensures
            n == self.wire().len(),
    {
        let code_len: usize = if self.iso_639_language_code.is_some() {
            ISO_639_LEN
        } else {
            0
        };
        1 + code_len + self.private_data.len()
    }

    /// Writes the selector bytes to the front of `buf`.
    pub fn serialize_into(&self, buf: &mut [u8]) -> (r: Result<usize, Error>)
        requires
            self.wire().len() <= usize::MAX,
        ensures
            emitted(r, old(buf)@, final(buf)@, self.wire()),
    {
        let len = self.serialized_len();
        if buf.len() < len {
            return Err(Error::OutputBufferTooSmall { need: len, have: buf.len() });
        }
        let mut v: Vec<u8> = Vec::new();
        self.write_to(&mut v);
        copy_to_front(buf, &v);
        Ok(len)
    }

    /// Appends the selector bytes to `out`.
    pub fn write_to(&self, out: &mut Vec<u8>)
        ensures
            final(out)@ == old(out)@ + self.wire(),
    {
        let m: u8 = if self.mix_type {
            1
        } else {
            0
        };
        let l: u8 = if self.language_code_present {
            1
        } else {
            0
        };
        push_u8(out, (m << 7u8) | ((self.editorial_classification & 0x1F) << 2u8) | 0x02 | l);
        match self.iso_639_language_code {
            Some(lc) => push_code(out, lc.0),
            None => {},
        }
        push_bytes(out, self.private_data);
        assert(out@ =~= old(out)@ + self.wire());
    }
}

/// Encoding then parsing a well-formed supplementary_audio body gives it back.
pub proof fn lemma_supplementary_audio_encode_parse(d: SupplementaryAudio)
    requires
        d.wf(),
    ensures
        SupplementaryAudio::sel_ok(d.wire()),
        d.decodes(d.wire()),
{
    let w = d.wire();
    lemma_supp_flags(0, bit(d.mix_type), d.editorial_classification, bit(d.language_code_present));
    assert(w[0] == supp_flags(d.mix_type, d.editorial_classification, d.language_code_present));
    if d.language_code_present {
        assert(w.subrange(1, 4) =~= d.code_wire());
        assert(w.subrange(4, w.len() as int) =~= d.private_data@);
    } else {
        assert(w.subrange(1, w.len() as int) =~= d.private_data@);
    }
}

/// Parsing then encoding canonical supplementary_audio bytes gives them back.
pub proof fn lemma_supplementary_audio_parse_encode(s: Seq<u8>, d: SupplementaryAudio)
    requires
        SupplementaryAudio::sel_ok(s),
        SupplementaryAudio::canonical(s),
        d.decodes(s),
    ensures
        d.wire() == s,
        d.wf(),
{
    lemma_supp_flags(s[0], 0, 0, 0);
    assert(d.wire() =~= s);
}

/// A parsed SupplementaryAudio is well formed: it encodes again, and parsing that encoding
/// yields it back.
pub proof fn lemma_supplementary_audio_reparse(s: Seq<u8>, d: SupplementaryAudio)
    requires
        SupplementaryAudio::sel_ok(s),
        d.decodes(s),
    ensures
        d.wf(),
        SupplementaryAudio::sel_ok(d.wire()),
        d.decodes(d.wire()),
        d.wire().len() <= s.len(),
{
    lemma_supp_flags(s[0], 0, 0, 0);
    lemma_supplementary_audio_encode_parse(d);
}

/// Parsing, encoding and parsing again gives the same value: whatever parses
/// from the encoding of a parsed SupplementaryAudio equals it.
pub proof fn lemma_supplementary_audio_round_trip(s: Seq<u8>, d: SupplementaryAudio, d2: SupplementaryAudio)
    requires
        SupplementaryAudio::sel_ok(s),
        d.decodes(s),
        d2.decodes(d.wire()),
    ensures
        d2 == d,
{
    lemma_supplementary_audio_reparse(s, d);
    assert(d2.private_data =~= d.private_data);
    if d.iso_639_language_code is Some {
        crate::wire::lemma_code_bytes_injective(d2.iso_639_language_code.unwrap().0, d.iso_639_language_code.unwrap().0);
    }
}

} // verus!
