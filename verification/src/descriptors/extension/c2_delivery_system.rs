//! C2 Delivery System Descriptor — ETSI EN 300 468 §6.4.6.1 (tag_extension 0x0D).

use super::ExtensionBodyDef;
use crate::error::{is_too_short, Error};
use crate::wire::{be32, lemma_be32_of_bytes, lemma_bytes_of_be32, push_u32, push_u8, read_u32, u32_bytes};
use crate::descriptors::emitted;
use crate::wire::copy_to_front;
use vstd::prelude::*;

verus! {

impl ExtensionBodyDef for C2DeliverySystem {
    const TAG_EXTENSION: u8 = 0x0D;
    const NAME: &'static str = "C2_DELIVERY_SYSTEM";
}

/// Length of the C2_delivery_system body.
pub const C2_LEN: usize = 7;

/// C2 system tuning frequency type — ETSI EN 300 468 Table 116.
#[derive(Debug, Clone, Copy, PartialEq, Eq)]
pub enum C2TuningFrequencyType {
    /// 0b00 — Data Slice tuning frequency.
    DataSliceTuningFrequency,
    /// 0b01 — C2 system centre frequency.
    C2SystemCentreFrequency,
    /// 0b10 — Initial tuning position for a (dependent) Static Data Slice.
    InitialTuningPositionStaticDataSlice,
    /// Reserved / future use.
    Reserved(u8),
}

impl C2TuningFrequencyType {
    /// `to_u8` gives back the raw value that `from_u8` read.
    pub proof fn lemma_from_to(v: u8)
        ensures
            Self::spec_from_u8(v).spec_to_u8() == v,
    {
    }

    /// `from_u8` gives back every well-formed variant from its raw value.
    pub proof fn lemma_to_from(self)
        requires
            self.wf(),
        ensures
            Self::spec_from_u8(self.spec_to_u8()) == self,
    {
    }

    /// The variant for a raw value.
    pub open spec fn spec_from_u8(v: u8) -> Self {
        if v == 0 {
            C2TuningFrequencyType::DataSliceTuningFrequency
        } else if v == 1 {
            C2TuningFrequencyType::C2SystemCentreFrequency
        } else if v == 2 {
            C2TuningFrequencyType::InitialTuningPositionStaticDataSlice
        } else {
            C2TuningFrequencyType::Reserved(v)
        }
    }

    /// The raw value of a variant.
    pub open spec fn spec_to_u8(self) -> u8 {
        match self {
            C2TuningFrequencyType::DataSliceTuningFrequency => 0,
            C2TuningFrequencyType::C2SystemCentreFrequency => 1,
            C2TuningFrequencyType::InitialTuningPositionStaticDataSlice => 2,
            C2TuningFrequencyType::Reserved(v) => v,
        }
    }

    /// The variant is the one `from_u8` gives for its raw value (a `Reserved`
    /// value is not one of the named values).
    pub open spec fn wf(self) -> bool {
        match self {
            C2TuningFrequencyType::Reserved(v) => v != 0 && v != 1 && v != 2,
            _ => true,
        }
    }

    /// The spec name of a variant.
    pub open spec fn spec_name(self) -> &'static str {
        match self {
            C2TuningFrequencyType::DataSliceTuningFrequency => "Data Slice tuning frequency",
            C2TuningFrequencyType::C2SystemCentreFrequency => "C2 system centre frequency",
            C2TuningFrequencyType::InitialTuningPositionStaticDataSlice => "initial tuning position for a Static Data Slice",
            C2TuningFrequencyType::Reserved(_) => "reserved",
        }
    }

    /// Constructs from a raw `u8`; every value maps to a variant (total, lossless).
    pub fn from_u8(v: u8) -> (r: Self)
        ensures
            r == Self::spec_from_u8(v),
            r.spec_to_u8() == v,
            r.wf(),
    {
        match v {
            0 => C2TuningFrequencyType::DataSliceTuningFrequency,
            1 => C2TuningFrequencyType::C2SystemCentreFrequency,
            2 => C2TuningFrequencyType::InitialTuningPositionStaticDataSlice,
            other => C2TuningFrequencyType::Reserved(other),
        }
    }

    /// Inverse of `from_u8`; `Reserved` emits its stored value.
    pub fn to_u8(self) -> (r: u8)
        ensures
            r == self.spec_to_u8(),
            self.wf() ==> Self::spec_from_u8(r) == self,
    {
        match self {
            C2TuningFrequencyType::DataSliceTuningFrequency => 0,
            C2TuningFrequencyType::C2SystemCentreFrequency => 1,
            C2TuningFrequencyType::InitialTuningPositionStaticDataSlice => 2,
            C2TuningFrequencyType::Reserved(v) => v,
        }
    }

    /// Human-readable spec name per Table 116.
    pub fn name(self) -> (r: &'static str)
        ensures
            r == self.spec_name(),
    {
        match self {
            C2TuningFrequencyType::DataSliceTuningFrequency => "Data Slice tuning frequency",
            C2TuningFrequencyType::C2SystemCentreFrequency => "C2 system centre frequency",
            C2TuningFrequencyType::InitialTuningPositionStaticDataSlice => "initial tuning position for a Static Data Slice",
            C2TuningFrequencyType::Reserved(_) => "reserved",
        }
    }
}

/// Active OFDM symbol duration — ETSI EN 300 468 Table 117.
#[derive(Debug, Clone, Copy, PartialEq, Eq)]
pub enum ActiveOfdmSymbolDuration {
    /// 448 µs (4k FFT mode for 8 MHz CATV systems).
    Us448,
    /// 597.33 µs (4k FFT mode for 6 MHz CATV systems).
    Us597_33,
    /// Reserved / future use.
    Reserved(u8),
}

impl ActiveOfdmSymbolDuration {
    /// `to_u8` gives back the raw value that `from_u8` read.
    pub proof fn lemma_from_to(v: u8)
        ensures
            Self::spec_from_u8(v).spec_to_u8() == v,
    {
    }

    /// `from_u8` gives back every well-formed variant from its raw value.
    pub proof fn lemma_to_from(self)
        requires
            self.wf(),
        ensures
            Self::spec_from_u8(self.spec_to_u8()) == self,
    {
    }

    /// The variant for a raw value.
    pub open spec fn spec_from_u8(v: u8) -> Self {
        if v == 0 {
            ActiveOfdmSymbolDuration::Us448
        } else if v == 1 {
            ActiveOfdmSymbolDuration::Us597_33
        } else {
            ActiveOfdmSymbolDuration::Reserved(v)
        }
    }

    /// The raw value of a variant.
    pub open spec fn spec_to_u8(self) -> u8 {
        match self {
            ActiveOfdmSymbolDuration::Us448 => 0,
            ActiveOfdmSymbolDuration::Us597_33 => 1,
            ActiveOfdmSymbolDuration::Reserved(v) => v,
        }
    }

    /// The variant is the one `from_u8` gives for its raw value (a `Reserved`
    /// value is not one of the named values).
    pub open spec fn wf(self) -> bool {
        match self {
            ActiveOfdmSymbolDuration::Reserved(v) => v != 0 && v != 1,
            _ => true,
        }
    }

    /// The spec name of a variant.
    pub open spec fn spec_name(self) -> &'static str {
        match self {
            ActiveOfdmSymbolDuration::Us448 => "448 µs (4k FFT, 8 MHz)",
            ActiveOfdmSymbolDuration::Us597_33 => "597.33 µs (4k FFT, 6 MHz)",
            ActiveOfdmSymbolDuration::Reserved(_) => "reserved",
        }
    }

    /// Constructs from a raw `u8`; every value maps to a variant (total, lossless).
    pub fn from_u8(v: u8) -> (r: Self)
        ensures
            r == Self::spec_from_u8(v),
            r.spec_to_u8() == v,
            r.wf(),
    {
        match v {
            0 => ActiveOfdmSymbolDuration::Us448,
            1 => ActiveOfdmSymbolDuration::Us597_33,
            other => ActiveOfdmSymbolDuration::Reserved(other),
        }
    }

    /// Inverse of `from_u8`; `Reserved` emits its stored value.
    pub fn to_u8(self) -> (r: u8)
        ensures
            r == self.spec_to_u8(),
            self.wf() ==> Self::spec_from_u8(r) == self,
    {
        match self {
            ActiveOfdmSymbolDuration::Us448 => 0,
            ActiveOfdmSymbolDuration::Us597_33 => 1,
            ActiveOfdmSymbolDuration::Reserved(v) => v,
        }
    }

    /// Human-readable spec name.
    pub fn name(self) -> (r: &'static str)
        ensures
            r == self.spec_name(),
    {
        match self {
            ActiveOfdmSymbolDuration::Us448 => "448 µs (4k FFT, 8 MHz)",
            ActiveOfdmSymbolDuration::Us597_33 => "597.33 µs (4k FFT, 6 MHz)",
            ActiveOfdmSymbolDuration::Reserved(_) => "reserved",
        }
    }
}

/// C2 guard interval — ETSI EN 300 468 Table 118.
#[derive(Debug, Clone, Copy, PartialEq, Eq)]
pub enum C2GuardInterval {
    /// 1/128.
    G1_128,
    /// 1/64.
    G1_64,
    /// Reserved / future use.
    Reserved(u8),
}

impl C2GuardInterval {
    /// `to_u8` gives back the raw value that `from_u8` read.
    pub proof fn lemma_from_to(v: u8)
        ensures
            Self::spec_from_u8(v).spec_to_u8() == v,
    {
    }

    /// `from_u8` gives back every well-formed variant from its raw value.
    pub proof fn lemma_to_from(self)
        requires
            self.wf(),
        ensures
            Self::spec_from_u8(self.spec_to_u8()) == self,
    {
    }

    /// The variant for a raw value.
    pub open spec fn spec_from_u8(v: u8) -> Self {
        if v == 0 {
            C2GuardInterval::G1_128
        } else if v == 1 {
            C2GuardInterval::G1_64
        } else {
            C2GuardInterval::Reserved(v)
        }
    }

    /// The raw value of a variant.
    pub open spec fn spec_to_u8(self) -> u8 {
        match self {
            C2GuardInterval::G1_128 => 0,
            C2GuardInterval::G1_64 => 1,
            C2GuardInterval::Reserved(v) => v,
        }
    }

    /// The variant is the one `from_u8` gives for its raw value (a `Reserved`
    /// value is not one of the named values).
    pub open spec fn wf(self) -> bool {
        match self {
            C2GuardInterval::Reserved(v) => v != 0 && v != 1,
            _ => true,
        }
    }

    /// The spec name of a variant.
    pub open spec fn spec_name(self) -> &'static str {
        match self {
            C2GuardInterval::G1_128 => "1/128",
            C2GuardInterval::G1_64 => "1/64",
            C2GuardInterval::Reserved(_) => "reserved",
        }
    }

    /// Constructs from a raw `u8`; every value maps to a variant (total, lossless).
    pub fn from_u8(v: u8) -> (r: Self)
        ensures
            r == Self::spec_from_u8(v),
            r.spec_to_u8() == v,
            r.wf(),
    {
        match v {
            0 => C2GuardInterval::G1_128,
            1 => C2GuardInterval::G1_64,
            other => C2GuardInterval::Reserved(other),
        }
    }

    /// Inverse of `from_u8`; `Reserved` emits its stored value.
    pub fn to_u8(self) -> (r: u8)
        ensures
            r == self.spec_to_u8(),
            self.wf() ==> Self::spec_from_u8(r) == self,
    {
        match self {
            C2GuardInterval::G1_128 => 0,
            C2GuardInterval::G1_64 => 1,
            C2GuardInterval::Reserved(v) => v,
        }
    }

    /// Human-readable spec name.
    pub fn name(self) -> (r: &'static str)
        ensures
            r == self.spec_name(),
    {
        match self {
            C2GuardInterval::G1_128 => "1/128",
            C2GuardInterval::G1_64 => "1/64",
            C2GuardInterval::Reserved(_) => "reserved",
        }
    }
}

/// The packed byte: tuning_frequency_type(2) | active_OFDM_symbol_duration(3) | guard_interval(3).
pub open spec fn c2_packed(t: u8, d: u8, g: u8) -> u8 {
    (t << 6u8) | ((d & 0x07) << 3u8) | (g & 0x07)
}

/// Field layout of the C2 packed byte.
pub proof fn lemma_c2_packed(p: u8, t: u8, d: u8, g: u8)
    by (bit_vector)
    ensures
        t < 4 && d < 8 && g < 8 ==> ((t << 6u8) | ((d & 0x07) << 3u8) | (g & 0x07)) >> 6u8 == t
            && ((((t << 6u8) | ((d & 0x07) << 3u8) | (g & 0x07)) >> 3u8) & 0x07) == d && (((t
            << 6u8) | ((d & 0x07) << 3u8) | (g & 0x07)) & 0x07) == g,
        ((p >> 6u8) << 6u8) | ((((p >> 3u8) & 0x07) & 0x07) << 3u8) | ((p & 0x07) & 0x07) == p,
        p >> 6u8 < 4,
        (p >> 3u8) & 0x07 < 8,
        p & 0x07 < 8,
        (1u8 << 7u8) & 0x80 != 0 && (0u8 << 7u8) & 0x80 == 0,
        p & 0x7F == 0 ==> ((if p & 0x80 != 0 { 1u8 } else { 0u8 }) << 7u8) == p,
{
}

/// C2_delivery_system body (Table 115) — fixed 7 bytes.
#[derive(Debug, Clone, Copy, PartialEq, Eq)]
pub struct C2DeliverySystem {
    /// plp_id(8).
    pub plp_id: u8,
    /// data_slice_id(8).
    pub data_slice_id: u8,
    /// C2_System_tuning_frequency(32).
    pub c2_system_tuning_frequency: u32,
    /// C2_System_tuning_frequency_type(2) — Table 116.
    pub c2_system_tuning_frequency_type: C2TuningFrequencyType,
    /// active_OFDM_symbol_duration(3) — Table 117.
    pub active_ofdm_symbol_duration: ActiveOfdmSymbolDuration,
    /// guard_interval(3) — Table 118.
    pub guard_interval: C2GuardInterval,
}

impl C2DeliverySystem {
    /// Parsing succeeds on exactly these selector bytes.
    pub open spec fn sel_ok(s: Seq<u8>) -> bool {
        s.len() >= 7
    }

    /// The error reported for selector bytes that do not parse.
    pub open spec fn sel_error(e: Error, s: Seq<u8>) -> bool {
        is_too_short(e, 7, s.len() as int)
    }

    /// Exactly the 7 body bytes.
    pub open spec fn canonical(s: Seq<u8>) -> bool {
        s.len() == 7
    }

    /// `self` is what parsing the selector bytes `s` yields.
    pub open spec fn decodes(&self, s: Seq<u8>) -> bool {
        &&& self.plp_id == s[0]
        &&& self.data_slice_id == s[1]
        &&& self.c2_system_tuning_frequency == be32(s, 2)
        &&& self.c2_system_tuning_frequency_type == C2TuningFrequencyType::spec_from_u8(s[6] >> 6u8)
        &&& self.active_ofdm_symbol_duration == ActiveOfdmSymbolDuration::spec_from_u8((s[6] >> 3u8) & 0x07)
        &&& self.guard_interval == C2GuardInterval::spec_from_u8(s[6] & 0x07)
    }

    /// The selector bytes written by `serialize_into`.
    pub open spec fn wire(&self) -> Seq<u8> {
        seq![self.plp_id, self.data_slice_id] + u32_bytes(self.c2_system_tuning_frequency) + seq![
            c2_packed(
                self.c2_system_tuning_frequency_type.spec_to_u8(),
                self.active_ofdm_symbol_duration.spec_to_u8(),
                self.guard_interval.spec_to_u8(),
            ),
        ]
    }

    /// Each coded field holds a value of its bit width, in its canonical variant.
    pub open spec fn wf(&self) -> bool {
        &&& self.c2_system_tuning_frequency_type.wf()
        &&& self.c2_system_tuning_frequency_type.spec_to_u8() < 4
        &&& self.active_ofdm_symbol_duration.wf()
        &&& self.active_ofdm_symbol_duration.spec_to_u8() < 8
        &&& self.guard_interval.wf()
        &&& self.guard_interval.spec_to_u8() < 8
    }

    /// Parses the 7-byte body.
    pub fn parse(sel: &[u8]) -> (r: Result<Self, Error>)
        ensures
            r is Ok <==> Self::sel_ok(sel@),
            r matches Ok(d) ==> d.decodes(sel@),
            r matches Err(e) ==> Self::sel_error(e, sel@),
    {
        if sel.len() < C2_LEN {
            return Err(Error::BufferTooShort { need: C2_LEN, have: sel.len(), what: "C2_delivery_system body" });
        }
        let packed = sel[6];
        Ok(C2DeliverySystem {
            plp_id: sel[0],
            data_slice_id: sel[1],
            c2_system_tuning_frequency: read_u32(sel, 2),
            c2_system_tuning_frequency_type: C2TuningFrequencyType::from_u8(packed >> 6u8),
            active_ofdm_symbol_duration: ActiveOfdmSymbolDuration::from_u8((packed >> 3u8) & 0x07),
            guard_interval: C2GuardInterval::from_u8(packed & 0x07),
        })
    }

    /// Length of the selector bytes.
    pub fn serialized_len(&self) -> (n: usize)
        ensures
            n == self.wire().len(),
    {
        C2_LEN
    }

    /// Writes the selector bytes to the front of `buf`.
    pub fn serialize_into(&self, buf: &mut [u8]) -> (r: Result<usize, Error>)
        requires
            self.wire().len() <= usize::MAX,
        ensures
            emitted(r, old(buf)@, final(buf)@, self.wire()),
    {
        let len = self.serialized_len();
        if buf.len() < len {
            return Err(Error::OutputBufferTooSmall { need: len, have: buf.len() });
        }
        let mut v: Vec<u8> = Vec::new();
        self.write_to(&mut v);
        copy_to_front(buf, &v);
        Ok(len)
    }

    /// Appends the selector bytes to `out`.
    pub fn write_to(&self, out: &mut Vec<u8>)
        ensures
            final(out)@ == old(out)@ + self.wire(),
    {
        push_u8(out, self.plp_id);
        push_u8(out, self.data_slice_id);
        push_u32(out, self.c2_system_tuning_frequency);
        push_u8(
            out,
            (self.c2_system_tuning_frequency_type.to_u8() << 6u8) | ((self.active_ofdm_symbol_duration.to_u8()
                & 0x07) << 3u8) | (self.guard_interval.to_u8() & 0x07),
        );
        assert(out@ =~= old(out)@ + self.wire());
    }
}

/// Encoding then parsing a well-formed C2_delivery_system body gives it back.
pub proof fn lemma_c2_delivery_system_encode_parse(d: C2DeliverySystem)
    requires
        d.wf(),
    ensures
        C2DeliverySystem::sel_ok(d.wire()),
        d.decodes(d.wire()),
{
    let w = d.wire();
    lemma_be32_of_bytes(d.c2_system_tuning_frequency);
    assert(w.subrange(2, 6) =~= u32_bytes(d.c2_system_tuning_frequency));
    lemma_c2_packed(
        0,
        d.c2_system_tuning_frequency_type.spec_to_u8(),
        d.active_ofdm_symbol_duration.spec_to_u8(),
        d.guard_interval.spec_to_u8(),
    );
}

/// Parsing then encoding the 7 C2_delivery_system bytes gives them back.
pub proof fn lemma_c2_delivery_system_parse_encode(s: Seq<u8>, d: C2DeliverySystem)
    requires
        C2DeliverySystem::sel_ok(s),
        C2DeliverySystem::canonical(s),
        d.decodes(s),
    ensures
        d.wire() == s,
        d.wf(),
{
    lemma_bytes_of_be32(s, 2);
    lemma_c2_packed(s[6], 0, 0, 0);
    assert(d.wire() =~= s);
}

/// A parsed C2DeliverySystem is well formed: it encodes again, and parsing that encoding
/// yields it back.
pub proof fn lemma_c2_delivery_system_reparse(s: Seq<u8>, d: C2DeliverySystem)
    requires
        C2DeliverySystem::sel_ok(s),
        d.decodes(s),
    ensures
        d.wf(),
        C2DeliverySystem::sel_ok(d.wire()),
        d.decodes(d.wire()),
        d.wire().len() <= s.len(),
{
    lemma_bytes_of_be32(s, 2);
    lemma_c2_packed(s[6], 0, 0, 0);
    lemma_c2_delivery_system_encode_parse(d);
}

/// Parsing, encoding and parsing again gives the same value: whatever parses
/// from the encoding of a parsed C2DeliverySystem equals it.
pub proof fn lemma_c2_delivery_system_round_trip(s: Seq<u8>, d: C2DeliverySystem, d2: C2DeliverySystem)
    requires
        C2DeliverySystem::sel_ok(s),
        d.decodes(s),
        d2.decodes(d.wire()),
    ensures
        d2 == d,
{
    lemma_c2_delivery_system_reparse(s, d);
}

impl C2TuningFrequencyType {
    /// The EN 300 468 C2_tuning_frequency_type codes: each code and the variant it stands for, in literal values.
    pub proof fn lemma_codes()
        ensures
            C2TuningFrequencyType::spec_from_u8(0) == C2TuningFrequencyType::DataSliceTuningFrequency,
            C2TuningFrequencyType::spec_from_u8(1) == C2TuningFrequencyType::C2SystemCentreFrequency,
            C2TuningFrequencyType::spec_from_u8(2) == C2TuningFrequencyType::InitialTuningPositionStaticDataSlice,
            C2TuningFrequencyType::DataSliceTuningFrequency.spec_to_u8() == 0,
            C2TuningFrequencyType::C2SystemCentreFrequency.spec_to_u8() == 1,
            C2TuningFrequencyType::InitialTuningPositionStaticDataSlice.spec_to_u8() == 2,
            forall|v: u8| v != 0 && v != 1 && v != 2 ==> #[trigger] C2TuningFrequencyType::spec_from_u8(v) == C2TuningFrequencyType::Reserved(v),
            forall|v: u8| #[trigger] C2TuningFrequencyType::Reserved(v).spec_to_u8() == v,
    {
    }
}

impl ActiveOfdmSymbolDuration {
    /// The EN 300 468 active_OFDM_symbol_duration codes: each code and the variant it stands for, in literal values.
    pub proof fn lemma_codes()
        ensures
            ActiveOfdmSymbolDuration::spec_from_u8(0) == ActiveOfdmSymbolDuration::Us448,
            ActiveOfdmSymbolDuration::spec_from_u8(1) == ActiveOfdmSymbolDuration::Us597_33,
            ActiveOfdmSymbolDuration::Us448.spec_to_u8() == 0,
            ActiveOfdmSymbolDuration::Us597_33.spec_to_u8() == 1,
            forall|v: u8| v != 0 && v != 1 ==> #[trigger] ActiveOfdmSymbolDuration::spec_from_u8(v) == ActiveOfdmSymbolDuration::Reserved(v),
            forall|v: u8| #[trigger] ActiveOfdmSymbolDuration::Reserved(v).spec_to_u8() == v,
    {
    }
}

impl C2GuardInterval {
    /// The EN 300 468 C2 guard_interval codes: each code and the variant it stands for, in literal values.
    pub proof fn lemma_codes()
        ensures
            C2GuardInterval::spec_from_u8(0) == C2GuardInterval::G1_128,
            C2GuardInterval::spec_from_u8(1) == C2GuardInterval::G1_64,
            C2GuardInterval::G1_128.spec_to_u8() == 0,
            C2GuardInterval::G1_64.spec_to_u8() == 1,
            forall|v: u8| v != 0 && v != 1 ==> #[trigger] C2GuardInterval::spec_from_u8(v) == C2GuardInterval::Reserved(v),
            forall|v: u8| #[trigger] C2GuardInterval::Reserved(v).spec_to_u8() == v,
    {
    }
}

/// The packed byte of a parsed C2 delivery system body, in the literal codes of
/// EN 300 468: C2_System_tuning_frequency_type (bits 7-6) 0 data slice tuning
/// frequency, 1 C2 system centre frequency, 2 initial tuning position of a static
/// data slice; active_OFDM_symbol_duration (bits 5-3) 0 448 µs, 1 597.33 µs;
/// guard_interval (bits 2-0) 0 1/128, 1 1/64.
pub proof fn lemma_c2_codes(s: Seq<u8>, d: C2DeliverySystem)
    requires
        d.decodes(s),
    ensures
        s[6] >> 6u8 == 0 ==> d.c2_system_tuning_frequency_type == C2TuningFrequencyType::DataSliceTuningFrequency,
        s[6] >> 6u8 == 1 ==> d.c2_system_tuning_frequency_type == C2TuningFrequencyType::C2SystemCentreFrequency,
        s[6] >> 6u8 == 2 ==> d.c2_system_tuning_frequency_type == C2TuningFrequencyType::InitialTuningPositionStaticDataSlice,
        s[6] >> 6u8 != 0 && s[6] >> 6u8 != 1 && s[6] >> 6u8 != 2 ==> d.c2_system_tuning_frequency_type == C2TuningFrequencyType::Reserved(s[6] >> 6u8),
        (s[6] >> 3u8) & 0x07 == 0 ==> d.active_ofdm_symbol_duration == ActiveOfdmSymbolDuration::Us448,
        (s[6] >> 3u8) & 0x07 == 1 ==> d.active_ofdm_symbol_duration == ActiveOfdmSymbolDuration::Us597_33,
        (s[6] >> 3u8) & 0x07 != 0 && (s[6] >> 3u8) & 0x07 != 1 ==> d.active_ofdm_symbol_duration == ActiveOfdmSymbolDuration::Reserved((s[6] >> 3u8) & 0x07),
        s[6] & 0x07 == 0 ==> d.guard_interval == C2GuardInterval::G1_128,
        s[6] & 0x07 == 1 ==> d.guard_interval == C2GuardInterval::G1_64,
        s[6] & 0x07 != 0 && s[6] & 0x07 != 1 ==> d.guard_interval == C2GuardInterval::Reserved(s[6] & 0x07),
{
}

} // verus!
