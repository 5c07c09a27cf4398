//! URI Linkage Descriptor — ETSI EN 300 468 §6.4.15 (tag_extension 0x13).

use super::ExtensionBodyDef;
use crate::error::{is_too_short, Error};
use crate::text::DvbText;
use crate::wire::{be16, lemma_be16_of_bytes, lemma_bytes_of_be16, push_bytes, push_u16, push_u8, read_u16, u16_bytes};
use crate::descriptors::emitted;
use crate::wire::copy_to_front;
use vstd::prelude::*;

verus! {

impl ExtensionBodyDef for UriLinkage<'_> {
    const TAG_EXTENSION: u8 = 0x13;
    const NAME: &'static str = "URI_LINKAGE";
}

/// URI linkage type — ETSI TS 101 162 registry.
#[derive(Debug, Clone, Copy, PartialEq, Eq)]
pub enum UriLinkageType {
    /// 0x00 — online SDT (Service Discovery & Selection).
    OnlineSdt,
    /// 0x01 — DVB-IPTV SD&S.
    DvbIptvSds,
    /// 0x02 — material resolution server.
    MaterialResolutionServer,
    /// 0x03 — DVB-I service list.
    DvbIServiceList,
    /// Any other registered value.
    Other(u8),
}

impl UriLinkageType {
    /// `to_u8` gives back the raw value that `from_u8` read.
    pub proof fn lemma_from_to(v: u8)
        ensures
            Self::spec_from_u8(v).spec_to_u8() == v,
    {
    }

    /// `from_u8` gives back every well-formed variant from its raw value.
    pub proof fn lemma_to_from(self)
        requires
            self.wf(),
        ensures
            Self::spec_from_u8(self.spec_to_u8()) == self,
    {
    }

    /// The variant for a raw value.
    pub open spec fn spec_from_u8(v: u8) -> Self {
        if v == 0 {
            UriLinkageType::OnlineSdt
        } else if v == 1 {
            UriLinkageType::DvbIptvSds
        } else if v == 2 {
            UriLinkageType::MaterialResolutionServer
        } else if v == 3 {
            UriLinkageType::DvbIServiceList
        } else {
            UriLinkageType::Other(v)
        }
    }

    /// The raw value of a variant.
    pub open spec fn spec_to_u8(self) -> u8 {
        match self {
            UriLinkageType::OnlineSdt => 0,
            UriLinkageType::DvbIptvSds => 1,
            UriLinkageType::MaterialResolutionServer => 2,
            UriLinkageType::DvbIServiceList => 3,
            UriLinkageType::Other(v) => v,
        }
    }

    /// The variant is the one `from_u8` gives for its raw value (a `Other`
    /// value is not one of the named values).
    pub open spec fn wf(self) -> bool {
        match self {
            UriLinkageType::Other(v) => v != 0 && v != 1 && v != 2 && v != 3,
            _ => true,
        }
    }

    /// The spec name of a variant.
    pub open spec fn spec_name(self) -> &'static str {
        match self {
            UriLinkageType::OnlineSdt => "online SDT (Service Discovery & Selection)",
            UriLinkageType::DvbIptvSds => "DVB-IPTV SD&S",
            UriLinkageType::MaterialResolutionServer => "material resolution server",
            UriLinkageType::DvbIServiceList => "DVB-I service list",
            UriLinkageType::Other(_) => "other (TS 101 162 registry)",
        }
    }

    /// Constructs from a raw `u8`; every value maps to a variant (total, lossless).
    pub fn from_u8(v: u8) -> (r: Self)
        ensures
            r == Self::spec_from_u8(v),
            r.spec_to_u8() == v,
            r.wf(),
    {
        match v {
            0 => UriLinkageType::OnlineSdt,
            1 => UriLinkageType::DvbIptvSds,
            2 => UriLinkageType::MaterialResolutionServer,
            3 => UriLinkageType::DvbIServiceList,
            other => UriLinkageType::Other(other),
        }
    }

    /// Inverse of `from_u8`; `Other` emits its stored value.
    pub fn to_u8(self) -> (r: u8)
        ensures
            r == self.spec_to_u8(),
            self.wf() ==> Self::spec_from_u8(r) == self,
    {
        match self {
            UriLinkageType::OnlineSdt => 0,
            UriLinkageType::DvbIptvSds => 1,
            UriLinkageType::MaterialResolutionServer => 2,
            UriLinkageType::DvbIServiceList => 3,
            UriLinkageType::Other(v) => v,
        }
    }

    /// Human-readable spec name.
    pub fn name(self) -> (r: &'static str)
        ensures
            r == self.spec_name(),
    {
        match self {
            UriLinkageType::OnlineSdt => "online SDT (Service Discovery & Selection)",
            UriLinkageType::DvbIptvSds => "DVB-IPTV SD&S",
            UriLinkageType::MaterialResolutionServer => "material resolution server",
            UriLinkageType::DvbIServiceList => "DVB-I service list",
            UriLinkageType::Other(_) => "other (TS 101 162 registry)",
        }
    }

    /// Types 0x00 and 0x01 carry a min_polling_interval.
    pub open spec fn spec_has_polling(self) -> bool {
        self is OnlineSdt || self is DvbIptvSds
    }

    /// True when the type carries a `min_polling_interval` field.
    pub fn has_polling_interval(self) -> (b: bool)
        ensures
            b == self.spec_has_polling(),
    {
        match self {
            UriLinkageType::OnlineSdt => true,
            UriLinkageType::DvbIptvSds => true,
            _ => false,
        }
    }
}

/// URI_linkage body (Table 159).
#[derive(Debug, Clone, PartialEq, Eq)]
pub struct UriLinkage<'a> {
    /// uri_linkage_type(8).
    pub uri_linkage_type: UriLinkageType,
    /// The URI characters.
    pub uri: DvbText<'a>,
    /// min_polling_interval(16), present for types 0x00 and 0x01.
    pub min_polling_interval: Option<u16>,
    /// Trailing private_data_byte run.
    pub private_data: &'a [u8],
}

impl<'a> UriLinkage<'a> {
    /// End of the URI in the selector bytes `s`.
    pub open spec fn uri_end(s: Seq<u8>) -> int {
        2 + s[1]
    }

    /// The type in `s` carries a polling interval.
    pub open spec fn polls(s: Seq<u8>) -> bool {
        UriLinkageType::spec_from_u8(s[0]).spec_has_polling()
    }

    /// Parsing succeeds on exactly these selector bytes.
    pub open spec fn sel_ok(s: Seq<u8>) -> bool {
        &&& s.len() >= 2
        &&& s.len() >= Self::uri_end(s)
        &&& Self::polls(s) ==> s.len() >= Self::uri_end(s) + 2
    }

    /// The error reported for selector bytes that do not parse.
    pub open spec fn sel_error(e: Error, s: Seq<u8>) -> bool {
        if s.len() < 2 {
            is_too_short(e, 2, s.len() as int)
        } else if s.len() < Self::uri_end(s) {
            is_too_short(e, Self::uri_end(s), s.len() as int)
        } else {
            is_too_short(e, Self::uri_end(s) + 2, s.len() as int)
        }
    }

    /// Every accepted selector byte run is canonical.
    pub open spec fn canonical(s: Seq<u8>) -> bool {
        true
    }

    /// `self` is what parsing the selector bytes `s` yields.
    pub open spec fn decodes(&self, s: Seq<u8>) -> bool {
        let p = Self::uri_end(s);
        &&& self.uri_linkage_type == UriLinkageType::spec_from_u8(s[0])
        &&& self.uri@ == s.subrange(2, p)
        &&& if Self::polls(s) {
            &&& self.min_polling_interval == Some(be16(s, p) as u16)
            &&& self.private_data@ == s.subrange(p + 2, s.len() as int)
        } else {
            &&& self.min_polling_interval is None
            &&& self.private_data@ == s.subrange(p, s.len() as int)
        }
    }

    /// The optional polling interval bytes.
    pub open spec fn polling_wire(&self) -> Seq<u8> {
        match self.min_polling_interval {
            Some(v) => u16_bytes(v),
            None => Seq::empty(),
        }
    }

    /// The selector bytes written by `serialize_into`.
    pub open spec fn wire(&self) -> Seq<u8> {
        seq![self.uri_linkage_type.spec_to_u8(), (self.uri@.len() % 256) as u8] + self.uri@
            + self.polling_wire() + self.private_data@
    }

    /// The URI fits its length byte and the polling interval is present exactly for its types.
    pub open spec fn wf(&self) -> bool {
        &&& self.uri_linkage_type.wf()
        &&& self.uri@.len() <= 255
        &&& (self.min_polling_interval is Some) == self.uri_linkage_type.spec_has_polling()
    }

    /// Parses the URI_linkage body.
    pub fn parse(sel: &'a [u8]) -> (r: Result<Self, Error>)
        ensures
            r is Ok <==> Self::sel_ok(sel@),
            r matches Ok(d) ==> d.decodes(sel@),
            r matches Err(e) ==> Self::sel_error(e, sel@),
    {
        if sel.len() < 2 {
            return Err(Error::BufferTooShort { need: 2, have: sel.len(), what: "URI_linkage body" });
        }
        let uri_linkage_type = UriLinkageType::from_u8(sel[0]);
        let uri_length = sel[1] as usize;
        let pos: usize = 2;
        if sel.len() < pos + uri_length {
            return Err(Error::BufferTooShort { need: pos + uri_length, have: sel.len(), what: "URI_linkage body" });
        }
        let uri = DvbText::new(&sel[pos..pos + uri_length]);
        let pos = pos + uri_length;
        if uri_linkage_type.has_polling_interval() {
            if sel.len() < pos + 2 {
                return Err(Error::BufferTooShort { need: pos + 2, have: sel.len(), what: "URI_linkage body" });
            }
            let v = read_u16(sel, pos);
            Ok(UriLinkage {
                uri_linkage_type,
                uri,
                min_polling_interval: Some(v),
                private_data: &sel[pos + 2..sel.len()],
            })
        } else {
            Ok(UriLinkage {
                uri_linkage_type,
                uri,
                min_polling_interval: None,
                private_data: &sel[pos..sel.len()],
            })
        }
    }

    /// Length of the selector bytes.
    pub fn serialized_len(&self) -> (n: usize)
        requires
            self.wire().len() <= usize::MAX,
        ensures
            n == self.wire().len(),
    {
        let polling: usize = if self.min_polling_interval.is_some() {
            2
        } else {
            0
        };
        2 + self.uri.len() + polling + self.private_data.len()
    }

    /// Writes the selector bytes to the front of `buf`.
    pub fn serialize_into(&self, buf: &mut [u8]) -> (r: Result<usize, Error>)
        requires
            self.wire().len() <= usize::MAX,
        ensures
            emitted(r, old(buf)@, final(buf)@, self.wire()),
    {
        let len = self.serialized_len();
        if buf.len() < len {
            return Err(Error::OutputBufferTooSmall { need: len, have: buf.len() });
        }
        let mut v: Vec<u8> = Vec::new();
        self.write_to(&mut v);
        copy_to_front(buf, &v);
        Ok(len)
    }

    /// Appends the selector bytes to `out`.
    pub fn write_to(&self, out: &mut Vec<u8>)
        ensures
            final(out)@ == old(out)@ + self.wire(),
    {
        push_u8(out, self.uri_linkage_type.to_u8());
        push_u8(out, (self.uri.len() % 256) as u8);
        push_bytes(out, self.uri.raw());
        match self.min_polling_interval {
            Some(v) => push_u16(out, v),
            None => {},
        }
        push_bytes(out, self.private_data);
        assert(out@ =~= old(out)@ + self.wire());
    }
}

/// Encoding then parsing a well-formed URI_linkage body gives it back.
pub proof fn lemma_uri_linkage_encode_parse(d: UriLinkage)
    requires
        d.wf(),
    ensures
        UriLinkage::sel_ok(d.wire()),
        d.decodes(d.wire()),
{
    let w = d.wire();
    let p: int = 2 + d.uri@.len() as int;
    assert(w.subrange(2, p) =~= d.uri@);
    match d.min_polling_interval {
        Some(v) => {
            lemma_be16_of_bytes(v);
            assert(w.subrange(p, p + 2) =~= u16_bytes(v));
            assert(w.subrange(p + 2, w.len() as int) =~= d.private_data@);
        },
        None => {
            assert(w.subrange(p, w.len() as int) =~= d.private_data@);
        },
    }
}

/// Parsing then encoding URI_linkage bytes gives them back.
pub proof fn lemma_uri_linkage_parse_encode(s: Seq<u8>, d: UriLinkage)
    requires
        UriLinkage::sel_ok(s),
        d.decodes(s),
    ensures
        d.wire() == s,
        d.wf(),
{
    let p = UriLinkage::uri_end(s);
    if UriLinkage::polls(s) {
        lemma_bytes_of_be16(s, p);
    }
    assert(d.wire() =~= s);
}

/// A parsed UriLinkage is well formed: it encodes again, and parsing that encoding
/// yields it back.
pub proof fn lemma_uri_linkage_reparse(s: Seq<u8>, d: UriLinkage)
    requires
        UriLinkage::sel_ok(s),
        d.decodes(s),
    ensures
        d.wf(),
        UriLinkage::sel_ok(d.wire()),
        d.decodes(d.wire()),
        d.wire().len() <= s.len(),
{
    lemma_uri_linkage_encode_parse(d);
}

/// Parsing, encoding and parsing again gives the same value: whatever parses
/// from the encoding of a parsed UriLinkage equals it.
pub proof fn lemma_uri_linkage_round_trip(s: Seq<u8>, d: UriLinkage, d2: UriLinkage)
    requires
        UriLinkage::sel_ok(s),
        d.decodes(s),
        d2.decodes(d.wire()),
    ensures
        d2 == d,
{
    lemma_uri_linkage_reparse(s, d);
    DvbText::lemma_view_eq(d2.uri, d.uri);
    assert(d2.private_data =~= d.private_data);
}

impl UriLinkageType {
    /// The TS 101 162 uri_linkage_type codes: each code and the variant it stands for, in literal values.
    pub proof fn lemma_codes()
        ensures
            UriLinkageType::spec_from_u8(0) == UriLinkageType::OnlineSdt,
            UriLinkageType::spec_from_u8(1) == UriLinkageType::DvbIptvSds,
            UriLinkageType::spec_from_u8(2) == UriLinkageType::MaterialResolutionServer,
            UriLinkageType::spec_from_u8(3) == UriLinkageType::DvbIServiceList,
            UriLinkageType::OnlineSdt.spec_to_u8() == 0,
            UriLinkageType::DvbIptvSds.spec_to_u8() == 1,
            UriLinkageType::MaterialResolutionServer.spec_to_u8() == 2,
            UriLinkageType::DvbIServiceList.spec_to_u8() == 3,
            forall|v: u8| v != 0 && v != 1 && v != 2 && v != 3 ==> #[trigger] UriLinkageType::spec_from_u8(v) == UriLinkageType::Other(v),
            forall|v: u8| #[trigger] UriLinkageType::Other(v).spec_to_u8() == v,
    {
    }
}

/// The uri_linkage_type of a parsed URI linkage body, in the literal codes of
/// TS 101 162: 0x00 online SDT, 0x01 DVB-IPTV SD&S, 0x02 material resolution
/// server, 0x03 DVB-I service list; only types 0x00 and 0x01 carry a
/// min_polling_interval.
pub proof fn lemma_uri_linkage_type_codes(s: Seq<u8>, d: UriLinkage)
    requires
        d.decodes(s),
    ensures
        s[0] == 0 ==> d.uri_linkage_type == UriLinkageType::OnlineSdt,
        s[0] == 1 ==> d.uri_linkage_type == UriLinkageType::DvbIptvSds,
        s[0] == 2 ==> d.uri_linkage_type == UriLinkageType::MaterialResolutionServer,
        s[0] == 3 ==> d.uri_linkage_type == UriLinkageType::DvbIServiceList,
        s[0] != 0 && s[0] != 1 && s[0] != 2 && s[0] != 3 ==> d.uri_linkage_type == UriLinkageType::Other(s[0]),
        (d.min_polling_interval is Some) == (s[0] <= 1),
{
}

} // verus!
