//! Network Change Notify Descriptor — ETSI EN 300 468 §6.4.9 (tag_extension 0x07).

use super::ExtensionBodyDef;
use crate::error::Error;
use crate::wire::push_bytes;
use crate::descriptors::emitted;
use crate::wire::copy_to_front;
use vstd::prelude::*;

verus! {

impl ExtensionBodyDef for NetworkChangeNotify<'_> {
    const TAG_EXTENSION: u8 = 0x07;
    const NAME: &'static str = "NETWORK_CHANGE_NOTIFY";
}

/// network_change_notify body (Table 149) — the cell loop is kept raw.
#[derive(Debug, Clone, PartialEq, Eq)]
pub struct NetworkChangeNotify<'a> {
    /// Raw cell loop bytes.
    pub cell_loop: &'a [u8],
}

impl<'a> NetworkChangeNotify<'a> {
    /// Parsing succeeds on all selector bytes.
    pub open spec fn sel_ok(s: Seq<u8>) -> bool {
        true
    }

    /// Parsing never fails.
    pub open spec fn sel_error(e: Error, s: Seq<u8>) -> bool {
        false
    }

    /// Every selector byte run is canonical.
    pub open spec fn canonical(s: Seq<u8>) -> bool {
        true
    }

    /// `self` is what parsing the selector bytes `s` yields.
    pub open spec fn decodes(&self, s: Seq<u8>) -> bool {
        self.cell_loop@ == s
    }

    /// The selector bytes written by `serialize_into`.
    pub open spec fn wire(&self) -> Seq<u8> {
        self.cell_loop@
    }

    /// Parses the body: the whole selector is the cell loop.
    pub fn parse(sel: &'a [u8]) -> (r: Result<Self, Error>)
        ensures
            r is Ok,
            r matches Ok(d) ==> d.decodes(sel@),
    {
        Ok(NetworkChangeNotify { cell_loop: sel })
    }

    /// Length of the selector bytes.
    pub fn serialized_len(&self) -> (n: usize)
        ensures
            n == self.wire().len(),
    {
        self.cell_loop.len()
    }

    /// Writes the selector bytes to the front of `buf`.
    pub fn serialize_into(&self, buf: &mut [u8]) -> (r: Result<usize, Error>)
        requires
            self.wire().len() <= usize::MAX,
        ensures
            emitted(r, old(buf)@, final(buf)@, self.wire()),
    {
        let len = self.serialized_len();
        if buf.len() < len {
            return Err(Error::OutputBufferTooSmall { need: len, have: buf.len() });
        }
        let mut v: Vec<u8> = Vec::new();
        self.write_to(&mut v);
        copy_to_front(buf, &v);
        Ok(len)
    }

    /// Appends the selector bytes to `out`.
    pub fn write_to(&self, out: &mut Vec<u8>)
        ensures
            final(out)@ == old(out)@ + self.wire(),
    {
        push_bytes(out, self.cell_loop);
    }
}

} // verus!
