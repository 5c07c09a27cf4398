//! Text fields: DVB Annex-A encoded character runs kept as raw bytes, and
//! three-letter ISO 639 / ISO 3166 codes.
use vstd::prelude::*;

verus! {

/// A run of DVB Annex-A encoded characters, kept as the raw wire bytes.
#[derive(Debug, Clone, Copy, PartialEq, Eq)]
pub struct DvbText<'a> {
    bytes: &'a [u8],
}

impl<'a> View for DvbText<'a> {
    type V = Seq<u8>;

    closed spec fn view(&self) -> Seq<u8> {
        self.bytes@
    }
}

impl<'a> DvbText<'a> {
    /// Two texts that hold the same bytes are equal.
    pub proof fn lemma_view_eq(a: DvbText<'a>, b: DvbText<'a>)
        requires
            a@ == b@,
        ensures
            a == b,
    {
        assert(a.bytes =~= b.bytes);
    }
}

impl<'a> DvbText<'a> {
    /// Wraps raw text bytes.
    pub fn new(bytes: &'a [u8]) -> (t: Self)
        ensures
            t@ == bytes@,
    {
        DvbText { bytes }
    }

    /// The raw wire bytes.
    pub fn raw(&self) -> (r: &'a [u8])
        ensures
            r@ == self@,
    {
        self.bytes
    }

    /// Number of raw bytes.
    pub fn len(&self) -> (n: usize)
        ensures
            n == self@.len(),
    {
        self.bytes.len()
    }

    /// True when there are no bytes.
    pub fn is_empty(&self) -> (b: bool)
        ensures
            b <==> self@.len() == 0,
    {
        self.bytes.len() == 0
    }

    /// The text as characters: each byte of the printable ASCII range
    /// `0x20..=0x7E`, which every DVB character table shares, is that
    /// character; every other byte is U+FFFD.
    pub fn decode(&self) -> (s: String)
        ensures
            s@ == self@.map_values(|b: u8| ascii_char(b)),
    {
        let mut s = String::new();
        let mut i: usize = 0;
        while i < self.bytes.len()
            invariant
                i <= self.bytes@.len(),
                s@ == self.bytes@.subrange(0, i as int).map_values(|b: u8| ascii_char(b)),
            decreases self.bytes@.len() - i,
        {
            let b = self.bytes[i];
            let c = if 0x20 <= b && b <= 0x7E {
                b as char
            } else {
                '\u{FFFD}'
            };
            push_char(&mut s, c);
            i = i + 1;
            assert(s@ =~= self.bytes@.subrange(0, i as int).map_values(|b: u8| ascii_char(b)));
        }
        assert(self.bytes@.subrange(0, i as int) =~= self.bytes@);
        s
    }
}

/// The character a text byte decodes to: itself in the printable ASCII range,
/// U+FFFD otherwise.
pub open spec fn ascii_char(b: u8) -> char {
    if 0x20 <= b <= 0x7E {
        b as char
    } else {
        '\u{FFFD}'
    }
}

/// `String::push`: appends the character `c`.
#[verifier::external_body]
fn push_char(s: &mut String, c: char)
    ensures
        final(s)@ == old(s)@.push(c),
{
    s.push(c);
}

/// A three-byte ISO 639 language code or ISO 3166 country code, as on the wire.
#[derive(Debug, Clone, Copy, PartialEq, Eq, Hash)]
pub struct LangCode(pub [u8; 3]);

} // verus!
