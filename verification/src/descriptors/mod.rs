//! DVB + MPEG-2 descriptors. Each descriptor tag has its own module; every
//! descriptor is framed as `tag(8) | descriptor_length(8) | body`.

use crate::error::{is_invalid, is_out_of_range, is_out_too_small, is_too_short, Error};
use crate::wire::copy_to_front;
use vstd::prelude::*;

pub mod extension;
pub mod frequency_list;
pub mod fta_content_management;
pub mod iso_639_language;
pub mod linkage;
pub mod local_time_offset;
pub mod logical_channel;
pub mod mosaic;
pub mod multilingual_bouquet_name;
pub mod multilingual_component;
pub mod multilingual_service_name;
pub mod network_name;
pub mod nvod_reference;
pub mod parental_rating;
pub mod partial_transport_stream;
pub mod pdc;
pub mod private_data_indicator;
pub mod private_data_specifier;
pub mod registration;
pub mod related_content;
pub mod s2_satellite_delivery_system;
pub mod satellite_delivery_system;
pub mod scrambling;

pub use private_data_indicator::PrivateDataIndicatorDescriptor;
pub use registration::RegistrationDescriptor;

verus! {

/// Length of the `tag | descriptor_length` header.
pub const HEADER_LEN: usize = 2;

/// `s` starts with a complete descriptor carrying `tag`.
pub open spec fn header_ok(s: Seq<u8>, tag: u8) -> bool {
    s.len() >= 2 && s[0] == tag && s.len() >= 2 + s[1]
}

/// The body of the descriptor at the front of `s`.
pub open spec fn body_of(s: Seq<u8>) -> Seq<u8> {
    s.subrange(2, 2 + s[1])
}

/// The bytes of a complete descriptor at the front of `s`.
pub open spec fn framed_prefix(s: Seq<u8>) -> Seq<u8> {
    s.subrange(0, 2 + s[1])
}

/// The error that the header check reports for `s`.
pub open spec fn header_error(e: Error, s: Seq<u8>, tag: u8) -> bool {
    if s.len() < 2 {
        is_too_short(e, 2, s.len() as int)
    } else if s[0] != tag {
        is_invalid(e, s[0])
    } else {
        is_too_short(e, 2 + s[1], s.len() as int)
    }
}

/// A descriptor with `tag` and `body`; the length byte holds `body.len()` modulo 256.
pub open spec fn framed(tag: u8, body: Seq<u8>) -> Seq<u8> {
    seq![tag, (body.len() % 256) as u8] + body
}

/// A framed body of at most 255 bytes passes the header check and gives back its body.
pub proof fn lemma_framed_parses(tag: u8, body: Seq<u8>)
    requires
        body.len() <= 255,
    ensures
        header_ok(framed(tag, body), tag),
        body_of(framed(tag, body)) == body,
        framed_prefix(framed(tag, body)) == framed(tag, body),
{
    let f = framed(tag, body);
    assert(f[1] == body.len());
    assert(body_of(f) =~= body);
    assert(framed_prefix(f) =~= f);
}

/// Re-framing the body of a descriptor gives back the descriptor's bytes.
pub proof fn lemma_reframe(s: Seq<u8>, tag: u8)
    requires
        header_ok(s, tag),
    ensures
        framed(tag, body_of(s)) == framed_prefix(s),
        body_of(s).len() == s[1],
{
    assert(framed(tag, body_of(s)) =~= framed_prefix(s));
}

/// What `serialize_into` did to `buf` (from `old` to `new`) and returned, for the
/// encoding `enc`: on success the encoding fills the front of `buf`; the only
/// failure is a buffer shorter than the encoding, which leaves `buf` untouched.
pub open spec fn emitted(r: Result<usize, Error>, old: Seq<u8>, new: Seq<u8>, enc: Seq<u8>) -> bool {
    match r {
        Ok(n) => {
            &&& n == enc.len()
            &&& new.len() == old.len()
            &&& new.subrange(0, n as int) == enc
            &&& new.subrange(n as int, old.len() as int) == old.subrange(n as int, old.len() as int)
        },
        Err(e) => {
            &&& old.len() < enc.len()
            &&& is_out_too_small(e, enc.len() as int, old.len() as int)
            &&& new == old
        },
    }
}

/// What a body's `serialize_into` did to `buf` and returned, where it reports the
/// length `n` it sized the body to and writes the bytes `enc`, which are shorter
/// or longer than `n` where optional fields disagree with their selectors: on
/// success `enc` fills the front of `buf` and the rest is untouched; the only
/// failure is a buffer shorter than `n`, which leaves `buf` untouched.
pub open spec fn emitted_sized(r: Result<usize, Error>, old: Seq<u8>, new: Seq<u8>, enc: Seq<u8>, n: int) -> bool {
    match r {
        Ok(m) => {
            &&& m == n
            &&& old.len() >= n
            &&& new.len() == old.len()
            &&& new.subrange(0, enc.len() as int) == enc
            &&& new.subrange(enc.len() as int, old.len() as int) == old.subrange(enc.len() as int, old.len() as int)
        },
        Err(e) => {
            &&& old.len() < n
            &&& is_out_too_small(e, n, old.len() as int)
            &&& new == old
        },
    }
}

/// Like [`emitted`], where the positions that `keep` marks with 1 hold what
/// `buf` held before.
pub open spec fn emitted_kept(r: Result<usize, Error>, old: Seq<u8>, new: Seq<u8>, enc: Seq<u8>, keep: Seq<u8>) -> bool {
    match r {
        Ok(n) => {
            &&& n == enc.len()
            &&& old.len() >= n
            &&& crate::wire::written_over(old, new, enc, keep)
        },
        Err(e) => {
            &&& old.len() < enc.len()
            &&& is_out_too_small(e, enc.len() as int, old.len() as int)
            &&& new == old
        },
    }
}

/// What a descriptor's `serialize_into` did to `buf` (from `old` to `new`) and
/// returned, where it reports the sized length `n` and writes the bytes `enc`,
/// which do not exceed `n` on success, leaving the positions that `keep` marks
/// with 1 as they were. A buffer shorter than `n` is refused first, then an
/// encoding whose `limit_ok` fails with `InvalidDescriptor { tag }`; either
/// leaves `buf` untouched.
pub open spec fn emitted_limited_sized(
    r: Result<usize, Error>,
    old: Seq<u8>,
    new: Seq<u8>,
    enc: Seq<u8>,
    keep: Seq<u8>,
    n: int,
    limit_ok: bool,
    tag: u8,
) -> bool {
    match r {
        Ok(m) => {
            &&& m == n
            &&& limit_ok
            &&& old.len() >= n >= enc.len()
            &&& crate::wire::written_over(old, new, enc, keep)
        },
        Err(e) => new == old && if old.len() < n {
            is_out_too_small(e, n, old.len() as int)
        } else {
            !limit_ok && is_invalid(e, tag)
        },
    }
}

/// Like [`emitted`], where a body longer than 255 bytes (`body_len`) is refused
/// with `SectionLengthOverflow` (checked after the buffer size).
pub open spec fn emitted_capped(
    r: Result<usize, Error>,
    old: Seq<u8>,
    new: Seq<u8>,
    enc: Seq<u8>,
    body_len: int,
) -> bool {
    match r {
        Ok(n) => body_len <= 255 && old.len() >= enc.len() && emitted(r, old, new, enc),
        Err(e) => new == old && if old.len() < enc.len() {
            is_out_too_small(e, enc.len() as int, old.len() as int)
        } else {
            &&& body_len > 255
            &&& e matches Error::SectionLengthOverflow { declared: d, available: a }
            &&& d == body_len
            &&& a == 255
        },
    }
}

/// Checks the descriptor header and returns the body bytes.
pub fn descriptor_body<'a>(bytes: &'a [u8], tag: u8, what: &'static str, reason: &'static str) -> (r:
    Result<&'a [u8], Error>)
    ensures
        r is Ok <==> header_ok(bytes@, tag),
        r matches Ok(b) ==> b@ == body_of(bytes@),
        r matches Err(e) ==> header_error(e, bytes@, tag),
{
    if bytes.len() < HEADER_LEN {
        return Err(Error::BufferTooShort { need: HEADER_LEN, have: bytes.len(), what });
    }
    if bytes[0] != tag {
        return Err(Error::InvalidDescriptor { tag: bytes[0], reason });
    }
    let end = HEADER_LEN + bytes[1] as usize;
    if bytes.len() < end {
        return Err(Error::BufferTooShort { need: end, have: bytes.len(), what });
    }
    Ok(&bytes[HEADER_LEN..end])
}

/// Writes an encoding to the front of `buf`, or reports that `buf` is too short.
pub fn emit(buf: &mut [u8], enc: &Vec<u8>) -> (r: Result<usize, Error>)
    ensures
        emitted(r, old(buf)@, final(buf)@, enc@),
{
    if buf.len() < enc.len() {
        return Err(Error::OutputBufferTooSmall { need: enc.len(), have: buf.len() });
    }
    copy_to_front(buf, enc);
    Ok(enc.len())
}

/// Encodes `value` as `nibbles` packed-BCD digits for a `set_*` accessor,
/// reporting `ValueOutOfRange` for the descriptor `field` if it needs more digits.
pub fn encode_bcd_field(value: u64, nibbles: u8, field: &'static str) -> (r: Result<u64, Error>)
    requires
        nibbles <= 16,
    ensures
        r is Ok <==> value < crate::bcd::pow10(nibbles as nat),
        r matches Ok(v) ==> v == crate::bcd::bcd_encode(value as nat, nibbles as nat),
        r matches Err(e) ==> is_out_of_range(e),
{
    match crate::bcd::decimal_to_bcd(value, nibbles) {
        Some(v) => Ok(v),
        None => Err(Error::ValueOutOfRange { field, reason: "value exceeds the BCD field width" }),
    }
}

} // verus!
