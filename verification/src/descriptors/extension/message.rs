//! Message Descriptor — ETSI EN 300 468 §6.4.9 (tag_extension 0x08).

use super::ExtensionBodyDef;
use super::{invalid, ISO_639_LEN};
use crate::error::{is_invalid, Error};
use crate::text::{DvbText, LangCode};
use crate::wire::{code_bytes, push_bytes, push_code, push_u8, read_code};
use crate::descriptors::emitted;
use crate::wire::copy_to_front;
use vstd::prelude::*;

verus! {

impl ExtensionBodyDef for Message<'_> {
    const TAG_EXTENSION: u8 = 0x08;
    const NAME: &'static str = "MESSAGE";
}

/// message body (Table 148).
#[derive(Debug, Clone, PartialEq, Eq)]
pub struct Message<'a> {
    /// message_id(8).
    pub message_id: u8,
    /// ISO_639_language_code(24).
    pub iso_639_language_code: LangCode,
    /// DVB Annex-A encoded text_char run (remainder of body).
    pub text: DvbText<'a>,
}

impl<'a> Message<'a> {
    /// Parsing succeeds on exactly these selector bytes.
    pub open spec fn sel_ok(s: Seq<u8>) -> bool {
        s.len() >= 4
    }

    /// The error reported for selector bytes that do not parse.
    pub open spec fn sel_error(e: Error, s: Seq<u8>) -> bool {
        is_invalid(e, super::TAG)
    }

    /// The selector bytes are exactly what `serialize_into` writes for their parse.
    pub open spec fn canonical(s: Seq<u8>) -> bool {
        true
    }

    /// `self` is what parsing the selector bytes `s` yields.
    pub open spec fn decodes(&self, s: Seq<u8>) -> bool {
        &&& self.message_id == s[0]
        &&& code_bytes(self.iso_639_language_code.0) == s.subrange(1, 4)
        &&& self.text@ == s.subrange(4, s.len() as int)
    }

    /// The selector bytes written by `serialize_into`.
    pub open spec fn wire(&self) -> Seq<u8> {
        seq![self.message_id] + code_bytes(self.iso_639_language_code.0) + self.text@
    }

    /// Parses the message body.
    pub fn parse(sel: &'a [u8]) -> (r: Result<Self, Error>)
        ensures
            r is Ok <==> Self::sel_ok(sel@),
            r matches Ok(d) ==> d.decodes(sel@),
            r matches Err(e) ==> Self::sel_error(e, sel@),
    {
        if sel.len() < 1 + ISO_639_LEN {
            return Err(invalid("message: header truncated"));
        }
        Ok(Message {
            message_id: sel[0],
            iso_639_language_code: LangCode(read_code(sel, 1)),
            text: DvbText::new(&sel[1 + ISO_639_LEN..sel.len()]),
        })
    }

    /// Length of the selector bytes.
    pub fn serialized_len(&self) -> (n: usize)
        requires
            self.wire().len() <= usize::MAX,
        ensures
            n == self.wire().len(),
    {
        1 + ISO_639_LEN + self.text.len()
    }

    /// Writes the selector bytes to the front of `buf`.
    pub fn serialize_into(&self, buf: &mut [u8]) -> (r: Result<usize, Error>)
        requires
            self.wire().len() <= usize::MAX,
        ensures
            emitted(r, old(buf)@, final(buf)@, self.wire()),
    {
        let len = self.serialized_len();
        if buf.len() < len {
            return Err(Error::OutputBufferTooSmall { need: len, have: buf.len() });
        }
        let mut v: Vec<u8> = Vec::new();
        self.write_to(&mut v);
        copy_to_front(buf, &v);
        Ok(len)
    }

    /// Appends the selector bytes to `out`.
    pub fn write_to(&self, out: &mut Vec<u8>)
        ensures
            final(out)@ == old(out)@ + self.wire(),
    {
        push_u8(out, self.message_id);
        push_code(out, self.iso_639_language_code.0);
        push_bytes(out, self.text.raw());
        assert(out@ =~= old(out)@ + self.wire());
    }
}

/// Encoding then parsing a message body gives it back.
pub proof fn lemma_message_encode_parse(d: Message)
    ensures
        Message::sel_ok(d.wire()),
        d.decodes(d.wire()),
{
    let w = d.wire();
    assert(w.subrange(1, 4) =~= code_bytes(d.iso_639_language_code.0));
    assert(w.subrange(4, w.len() as int) =~= d.text@);
}

/// Parsing then encoding a message body gives back its bytes.
pub proof fn lemma_message_parse_encode(s: Seq<u8>, d: Message)
    requires
        Message::sel_ok(s),
        d.decodes(s),
    ensures
        d.wire() == s,
{
    assert(d.wire() =~= s);
}

} // verus!
