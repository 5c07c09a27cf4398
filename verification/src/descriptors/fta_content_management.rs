//! FTA Content Management Descriptor — ETSI EN 300 468 §6.2.18.1 (tag 0x7E).
//!
//! Carried in NIT/BAT/SDT/EIT. Fixed 1-byte body packing five fields
//! (MSB→LSB): `user_defined` (1), `reserved_future_use` (3),
//! `do_not_scramble` (1), `control_remote_access_over_internet` (2),
//! `do_not_apply_revocation` (1).

use super::{body_of, emitted, framed, framed_prefix, lemma_framed_parses, lemma_reframe};
use crate::error::{is_invalid, is_too_short, Error};
use crate::wire::copy_to_front;
use vstd::prelude::*;

verus! {

/// Descriptor tag for FTA_content_management_descriptor.
pub const TAG: u8 = 0x7E;

/// Length of the header (tag byte + length byte).
pub const HEADER_LEN: usize = 2;

/// Fixed body length: one packed flag byte.
pub const BODY_LEN: usize = 1;

/// Max value of the 2-bit control_remote_access_over_internet field.
pub const CONTROL_REMOTE_ACCESS_MAX: u8 = 0b11;

/// FTA Content Management Descriptor.
#[derive(Debug, Clone, Copy, PartialEq, Eq)]
pub struct FtaContentManagementDescriptor {
    /// 1-bit user_defined flag.
    pub user_defined: bool,
    /// 1-bit do_not_scramble flag.
    pub do_not_scramble: bool,
    /// 2-bit control_remote_access_over_internet field.
    pub control_remote_access_over_internet: u8,
    /// 1-bit do_not_apply_revocation flag.
    pub do_not_apply_revocation: bool,
}

impl FtaContentManagementDescriptor {
    /// Parsing succeeds on exactly these bytes.
    pub open spec fn bytes_ok(s: Seq<u8>) -> bool {
        s.len() >= 3 && s[0] == TAG && s[1] == 1
    }

    /// The error reported for bytes that do not parse (the length byte is
    /// checked before the body is looked for).
    pub open spec fn bytes_error(e: Error, s: Seq<u8>) -> bool {
        if s.len() < 2 {
            is_too_short(e, 2, s.len() as int)
        } else if s[0] != TAG {
            is_invalid(e, s[0])
        } else if s[1] != 1 {
            is_invalid(e, TAG)
        } else {
            is_too_short(e, 3, s.len() as int)
        }
    }

    /// `self` is what parsing the body `b` yields (the reserved bits are ignored).
    pub open spec fn decodes(&self, b: Seq<u8>) -> bool {
        &&& self.user_defined == (b[0] >= 128)
        &&& self.do_not_scramble == ((b[0] / 8) % 2 == 1)
        &&& self.control_remote_access_over_internet == (b[0] / 2) % 4
        &&& self.do_not_apply_revocation == (b[0] % 2 == 1)
    }

    /// The flag byte written: the three reserved bits are ones.
    pub open spec fn flags_byte(&self) -> u8 {
        ((if self.user_defined {
            128int
        } else {
            0int
        }) + 0x70 + (if self.do_not_scramble {
            8int
        } else {
            0int
        }) + (self.control_remote_access_over_internet % 4) * 2 + (if self.do_not_apply_revocation {
            1int
        } else {
            0int
        })) as u8
    }

    /// The complete wire encoding.
    pub open spec fn wire(&self) -> Seq<u8> {
        framed(TAG, seq![self.flags_byte()])
    }

    /// The remote-access field fits its two bits.
    pub open spec fn wf(&self) -> bool {
        self.control_remote_access_over_internet <= 3
    }

    /// The reserved bits of the flag byte of `s` are all ones.
    pub open spec fn canonical(s: Seq<u8>) -> bool {
        (s[2] / 16) % 8 == 7
    }

    /// Parses an FTA content management descriptor from the front of `bytes`.
    pub fn parse(bytes: &[u8]) -> (r: Result<Self, Error>)
        ensures
            r is Ok <==> Self::bytes_ok(bytes@),
            r matches Ok(d) ==> d.decodes(body_of(bytes@)),
            r matches Err(e) ==> Self::bytes_error(e, bytes@),
    {
        if bytes.len() < HEADER_LEN {
            return Err(
                Error::BufferTooShort { need: HEADER_LEN, have: bytes.len(), what: "FtaContentManagementDescriptor header" },
            );
        }
        if bytes[0] != TAG {
            return Err(
                Error::InvalidDescriptor { tag: bytes[0], reason: "unexpected tag for FTA_content_management_descriptor" },
            );
        }
        let length = bytes[1] as usize;
        if length != BODY_LEN {
            return Err(
                Error::InvalidDescriptor { tag: TAG, reason: "FTA_content_management_descriptor length must be exactly 1" },
            );
        }
        let end = HEADER_LEN + length;
        if bytes.len() < end {
            return Err(
                Error::BufferTooShort { need: end, have: bytes.len(), what: "FtaContentManagementDescriptor body" },
            );
        }
        let flags = bytes[HEADER_LEN];
        assert(body_of(bytes@)[0] == flags);
        Ok(
            FtaContentManagementDescriptor {
                user_defined: flags >= 0x80,
                do_not_scramble: (flags / 8) % 2 == 1,
                control_remote_access_over_internet: (flags / 2) % 4,
                do_not_apply_revocation: flags % 2 == 1,
            },
        )
    }

    /// Length of the wire encoding.
    pub fn serialized_len(&self) -> (n: usize)
        ensures
            n == self.wire().len(),
    {
        HEADER_LEN + BODY_LEN
    }

    /// The `descriptor_length` byte.
    pub fn descriptor_length(&self) -> (n: u8)
        ensures
            n == BODY_LEN,
    {
        BODY_LEN as u8
    }

    /// Writes the descriptor to the front of `buf`; a remote-access value over
    /// two bits is refused before the buffer is looked at.
    pub fn serialize_into(&self, buf: &mut [u8]) -> (r: Result<usize, Error>)
        ensures
            self.wf() ==> emitted(r, old(buf)@, final(buf)@, self.wire()),
            !self.wf() ==> (r matches Err(e) && is_invalid(e, TAG)) && final(buf)@ == old(buf)@,
    {
        if self.control_remote_access_over_internet > CONTROL_REMOTE_ACCESS_MAX {
            return Err(
                Error::InvalidDescriptor { tag: TAG, reason: "control_remote_access_over_internet exceeds 2 bits" },
            );
        }
        let len = self.serialized_len();
        if buf.len() < len {
            return Err(Error::OutputBufferTooSmall { need: len, have: buf.len() });
        }
        let mut flags: u8 = 0x70 + self.control_remote_access_over_internet * 2;
        if self.user_defined {
            flags = flags + 0x80;
        }
        if self.do_not_scramble {
            flags = flags + 0x08;
        }
        if self.do_not_apply_revocation {
            flags = flags + 0x01;
        }
        assert(flags == self.flags_byte());
        let mut v: Vec<u8> = Vec::new();
        v.push(TAG);
        v.push(BODY_LEN as u8);
        v.push(flags);
        assert(v@ =~= self.wire());
        copy_to_front(buf, &v);
        Ok(len)
    }
}

/// Encoding a well-formed FTA content management descriptor and parsing the
/// bytes gives it back.
pub proof fn lemma_fta_content_management_encode_parse(d: FtaContentManagementDescriptor)
    requires
        d.wf(),
    ensures
        FtaContentManagementDescriptor::bytes_ok(d.wire()),
        d.decodes(body_of(d.wire())),
        FtaContentManagementDescriptor::canonical(d.wire()),
{
    lemma_framed_parses(TAG, seq![d.flags_byte()]);
}

/// Parsing an FTA content management descriptor whose reserved bits are all
/// ones and encoding the result gives back its bytes.
pub proof fn lemma_fta_content_management_parse_encode(s: Seq<u8>, d: FtaContentManagementDescriptor)
    requires
        FtaContentManagementDescriptor::bytes_ok(s),
        FtaContentManagementDescriptor::canonical(s),
        d.decodes(body_of(s)),
    ensures
        d.wire() == framed_prefix(s),
        d.wf(),
{
    lemma_reframe(s, TAG);
    assert(d.flags_byte() == s[2]);
    assert(seq![d.flags_byte()] =~= body_of(s));
}

/// A parsed FtaContentManagementDescriptor is well formed: it encodes again, and parsing that encoding
/// yields it back.
pub proof fn lemma_fta_content_management_reparse(s: Seq<u8>, d: FtaContentManagementDescriptor)
    requires
        FtaContentManagementDescriptor::bytes_ok(s),
        d.decodes(body_of(s)),
    ensures
        d.wf(),
        FtaContentManagementDescriptor::bytes_ok(d.wire()),
        d.decodes(body_of(d.wire())),
{
    lemma_fta_content_management_encode_parse(d);
}

/// Parsing, encoding and parsing again gives the same value: whatever parses
/// from the encoding of a parsed FtaContentManagementDescriptor equals it.
pub proof fn lemma_fta_content_management_round_trip(s: Seq<u8>, d: FtaContentManagementDescriptor, d2: FtaContentManagementDescriptor)
    requires
        FtaContentManagementDescriptor::bytes_ok(s),
        d.decodes(body_of(s)),
        d2.decodes(body_of(d.wire())),
    ensures
        d2 == d,
{
    lemma_fta_content_management_reparse(s, d);
}

} // verus!
