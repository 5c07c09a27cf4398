use vstd::prelude::*;

verus! {

/// Errors returned by descriptor parsing and serialization.
#[derive(Debug, Clone, Copy, PartialEq, Eq)]
pub enum Error {
    /// The input ends before a field that the syntax requires.
    BufferTooShort { need: usize, have: usize, what: &'static str },
    /// The bytes do not form a valid descriptor of the expected kind.
    InvalidDescriptor { tag: u8, reason: &'static str },
    /// The output buffer cannot hold the serialized descriptor.
    OutputBufferTooSmall { need: usize, have: usize },
    /// A length field would have to hold more than it can encode.
    SectionLengthOverflow { declared: usize, available: usize },
    /// A value does not fit the wire field it is written to.
    ValueOutOfRange { field: &'static str, reason: &'static str },
}

/// `e` is a `BufferTooShort` error reporting `need` and `have`.
pub open spec fn is_too_short(e: Error, need: int, have: int) -> bool {
    e matches Error::BufferTooShort { need: n, have: h, .. } && n == need && h == have
}

/// `x` capped at `usize::MAX` (what a saturating `usize` addition gives).
pub open spec fn sat(x: int) -> int {
    if x > usize::MAX {
        usize::MAX as int
    } else {
        x
    }
}

/// `e` is an `InvalidDescriptor` error carrying `tag`.
pub open spec fn is_invalid(e: Error, tag: u8) -> bool {
    e matches Error::InvalidDescriptor { tag: t, .. } && t == tag
}

/// `e` is an `OutputBufferTooSmall` error reporting `need` and `have`.
pub open spec fn is_out_too_small(e: Error, need: int, have: int) -> bool {
    e matches Error::OutputBufferTooSmall { need: n, have: h } && n == need && h == have
}

/// `e` is a `ValueOutOfRange` error.
pub open spec fn is_out_of_range(e: Error) -> bool {
    e is ValueOutOfRange
}

} // verus!
