//! Extension descriptor — ETSI EN 300 468 §6.2.18.1 (tag `0x7F`).
//!
//! The first body byte, `descriptor_tag_extension`, selects one of a family of
//! sub-descriptors; the remaining bytes (the selector bytes) are its body:
//!
//! ```text
//!  byte 0      descriptor_tag           (0x7F)
//!  byte 1      descriptor_length
//!  byte 2      descriptor_tag_extension (the discriminant)
//!  byte 3..    selector_byte[]          (the sub-descriptor body)
//! ```
//!
//! Known discriminants parse into a typed [`ExtensionBody`] variant; any other
//! value keeps its selector bytes verbatim in [`ExtensionBody::Raw`], so unknown
//! tags round-trip unchanged.

use super::{
    body_of, descriptor_body, emitted_limited_sized, framed, framed_prefix, header_error, header_ok,
    lemma_framed_parses, lemma_reframe, HEADER_LEN,
};
use crate::error::{is_invalid, Error};
use crate::wire::{copy_to_front_masked, push_bytes, push_u8, push_zeros, zeros};
use vstd::prelude::*;

pub mod ac4;
pub mod audio_preselection;
pub mod c2_bundle_delivery_system;
pub mod c2_delivery_system;
pub mod image_icon;
pub mod message;
pub mod network_change_notify;
pub mod s2x_satellite_delivery_system;
pub mod s2xv2_satellite_delivery_system;
pub mod service_prominence;
pub mod service_relocated;
pub mod sh_delivery_system;
pub mod supplementary_audio;
pub mod t2_delivery_system;
pub mod t2mi;
pub mod target_region;
pub mod target_region_name;
pub mod ttml_subtitling;
pub mod uri_linkage;
pub mod video_depth_range;
pub mod vvc_subpictures;

pub use ac4::{Ac4};
pub use audio_preselection::{AudioPreselection};
pub use c2_bundle_delivery_system::{C2BundleDeliverySystem, C2BundleEntry};
pub use c2_delivery_system::{ActiveOfdmSymbolDuration, C2DeliverySystem, C2GuardInterval, C2TuningFrequencyType};
pub use image_icon::{IconPosition, ImageIcon, ImageIconBody, ImageIconFirst};
pub use message::{Message};
pub use network_change_notify::{NetworkChangeNotify};
pub use s2x_satellite_delivery_system::{S2XSatelliteDeliverySystem};
pub use s2xv2_satellite_delivery_system::{S2Xv2Mode, S2Xv2SatelliteDeliverySystem, S2Xv2Superframe};
pub use service_prominence::{ServiceProminence, SogiEntry};
pub use service_relocated::{ServiceRelocated};
pub use sh_delivery_system::{ShBandwidth, ShCodeRate, ShConstellationAndHierarchy, ShDeliverySystem, ShDiversityMode, ShGuardInterval, ShInterleaver, ShModulation, ShModulationMode, ShModulationModeType, ShPolarization, ShRollOff, ShTransmissionMode};
pub use supplementary_audio::{SupplementaryAudio};
pub use t2_delivery_system::{T2DeliverySystem};
pub use t2mi::{T2mi};
pub use target_region::{RegionCodes, TargetRegion, TargetRegionEntry};
pub use target_region_name::{TargetRegionName, TargetRegionNameEntry};
pub use ttml_subtitling::{TtmlSubtitling};
pub use uri_linkage::{UriLinkage, UriLinkageType};
pub use video_depth_range::{DepthRange, DepthRangeBody, VideoDepthRange};
pub use vvc_subpictures::{VvcSubpicture, VvcSubpicturesDescriptor};

verus! {

/// Descriptor tag for extension_descriptor.
pub const TAG: u8 = 0x7F;
/// `descriptor_tag_extension` occupies one byte immediately after the header.
pub const TAG_EXTENSION_LEN: usize = 1;

/// Per-body metadata for the extension-descriptor sub-dispatch: the
/// `descriptor_tag_extension` value a body is selected by and a diagnostic name.
pub trait ExtensionBodyDef {
    /// The `descriptor_tag_extension` value this body is selected by.
    const TAG_EXTENSION: u8;
    /// SCREAMING_SNAKE diagnostic name, suffix-free.
    const NAME: &'static str;
}
/// `descriptor_length` is a single byte; a serialized body may not exceed this.
pub const MAX_DESCRIPTOR_LENGTH: usize = 0xFF;
/// Length of an ISO 639 language code.
pub const ISO_639_LEN: usize = 3;

/// The `InvalidDescriptor` error of the extension descriptor, with a reason.
pub fn invalid(reason: &'static str) -> (e: Error)
    ensures
        is_invalid(e, TAG),
{
    Error::InvalidDescriptor { tag: TAG, reason }
}

/// Known `descriptor_tag_extension` values (EN 300 468 Table 109).
#[derive(Debug, Clone, Copy, PartialEq, Eq, Hash)]
pub enum ExtensionTag {
    /// image_icon_descriptor (0x00).
    ImageIcon,
    /// T2_delivery_system_descriptor (0x04).
    T2DeliverySystem,
    /// SH_delivery_system_descriptor (0x05).
    ShDeliverySystem,
    /// supplementary_audio_descriptor (0x06).
    SupplementaryAudio,
    /// network_change_notify_descriptor (0x07).
    NetworkChangeNotify,
    /// message_descriptor (0x08).
    Message,
    /// target_region_descriptor (0x09).
    TargetRegion,
    /// target_region_name_descriptor (0x0A).
    TargetRegionName,
    /// service_relocated_descriptor (0x0B).
    ServiceRelocated,
    /// C2_delivery_system_descriptor (0x0D).
    C2DeliverySystem,
    /// T2-MI_descriptor (0x11).
    T2mi,
    /// video_depth_range_descriptor (0x10).
    VideoDepthRange,
    /// URI_linkage_descriptor (0x13).
    UriLinkage,
    /// AC-4_descriptor (0x15).
    Ac4,
    /// C2_bundle_delivery_system_descriptor (0x16).
    C2BundleDeliverySystem,
    /// S2X_satellite_delivery_system_descriptor (0x17).
    S2XSatelliteDeliverySystem,
    /// audio_preselection_descriptor (0x19).
    AudioPreselection,
    /// TTML_subtitling_descriptor (0x20).
    TtmlSubtitling,
    /// service_prominence_descriptor (0x22).
    ServiceProminence,
    /// vvc_subpictures_descriptor (0x23).
    VvcSubpictures,
    /// S2Xv2_satellite_delivery_system_descriptor (0x24).
    S2Xv2SatelliteDeliverySystem,
}

/// The named tag for a `descriptor_tag_extension` value, if it has one.
pub open spec fn spec_kind(t: u8) -> Option<ExtensionTag> {
    if t == 0x00 {
        Some(ExtensionTag::ImageIcon)
    } else if t == 0x04 {
        Some(ExtensionTag::T2DeliverySystem)
    } else if t == 0x05 {
        Some(ExtensionTag::ShDeliverySystem)
    } else if t == 0x06 {
        Some(ExtensionTag::SupplementaryAudio)
    } else if t == 0x07 {
        Some(ExtensionTag::NetworkChangeNotify)
    } else if t == 0x08 {
        Some(ExtensionTag::Message)
    } else if t == 0x09 {
        Some(ExtensionTag::TargetRegion)
    } else if t == 0x0A {
        Some(ExtensionTag::TargetRegionName)
    } else if t == 0x0B {
        Some(ExtensionTag::ServiceRelocated)
    } else if t == 0x0D {
        Some(ExtensionTag::C2DeliverySystem)
    } else if t == 0x10 {
        Some(ExtensionTag::VideoDepthRange)
    } else if t == 0x11 {
        Some(ExtensionTag::T2mi)
    } else if t == 0x13 {
        Some(ExtensionTag::UriLinkage)
    } else if t == 0x15 {
        Some(ExtensionTag::Ac4)
    } else if t == 0x16 {
        Some(ExtensionTag::C2BundleDeliverySystem)
    } else if t == 0x17 {
        Some(ExtensionTag::S2XSatelliteDeliverySystem)
    } else if t == 0x19 {
        Some(ExtensionTag::AudioPreselection)
    } else if t == 0x20 {
        Some(ExtensionTag::TtmlSubtitling)
    } else if t == 0x22 {
        Some(ExtensionTag::ServiceProminence)
    } else if t == 0x23 {
        Some(ExtensionTag::VvcSubpictures)
    } else if t == 0x24 {
        Some(ExtensionTag::S2Xv2SatelliteDeliverySystem)
    } else {
        None
    }
}

/// Typed body of an extension descriptor, keyed on `descriptor_tag_extension`.
#[derive(Debug, Clone, PartialEq, Eq)]
pub enum ExtensionBody<'a> {
    /// `0x08` — message.
    Message(Message<'a>),
    /// `0x0B` — service_relocated.
    ServiceRelocated(ServiceRelocated),
    /// `0x06` — supplementary_audio.
    SupplementaryAudio(SupplementaryAudio<'a>),
    /// `0x07` — network_change_notify.
    NetworkChangeNotify(NetworkChangeNotify<'a>),
    /// `0x11` — t2mi.
    T2mi(T2mi<'a>),
    /// `0x19` — audio_preselection.
    AudioPreselection(AudioPreselection<'a>),
    /// `0x0D` — c2_delivery_system.
    C2DeliverySystem(C2DeliverySystem),
    /// `0x16` — c2_bundle_delivery_system.
    C2BundleDeliverySystem(C2BundleDeliverySystem),
    /// `0x04` — t2_delivery_system.
    T2DeliverySystem(T2DeliverySystem<'a>),
    /// `0x13` — uri_linkage.
    UriLinkage(UriLinkage<'a>),
    /// `0x15` — ac4.
    Ac4(Ac4<'a>),
    /// `0x05` — sh_delivery_system.
    ShDeliverySystem(ShDeliverySystem),
    /// `0x09` — target_region.
    TargetRegion(TargetRegion),
    /// `0x0A` — target_region_name.
    TargetRegionName(TargetRegionName<'a>),
    /// `0x22` — service_prominence.
    ServiceProminence(ServiceProminence<'a>),
    /// `0x23` — vvc_subpictures.
    VvcSubpictures(VvcSubpicturesDescriptor<'a>),
    /// `0x10` — video_depth_range.
    VideoDepthRange(VideoDepthRange<'a>),
    /// `0x20` — ttml_subtitling.
    TtmlSubtitling(TtmlSubtitling<'a>),
    /// `0x00` — image_icon.
    ImageIcon(ImageIcon<'a>),
    /// `0x17` — s2x_satellite_delivery_system.
    S2XSatelliteDeliverySystem(S2XSatelliteDeliverySystem<'a>),
    /// `0x24` — s2xv2_satellite_delivery_system.
    S2Xv2SatelliteDeliverySystem(S2Xv2SatelliteDeliverySystem<'a>),
    /// Any not-yet-typed / unknown / user-defined discriminant: selector bytes verbatim.
    Raw(&'a [u8]),
}

/// The discriminants that parse into a typed body.
pub open spec fn typed_tag(t: u8) -> bool {
    t == 0x08 || t == 0x0B || t == 0x06 || t == 0x07 || t == 0x11 || t == 0x19 || t == 0x0D || t == 0x16 || t == 0x04 || t == 0x13 || t == 0x15 || t == 0x05 || t == 0x09 || t == 0x0A || t == 0x22 || t == 0x23 || t == 0x10 || t == 0x20 || t == 0x00 || t == 0x17 || t == 0x24
}

impl<'a> ExtensionBody<'a> {
    /// Parsing the selector bytes `s` under discriminant `t` succeeds.
    pub open spec fn sel_ok(t: u8, s: Seq<u8>) -> bool {
        if t == 0x08 {
            Message::sel_ok(s)
        } else if t == 0x0B {
            ServiceRelocated::sel_ok(s)
        } else if t == 0x06 {
            SupplementaryAudio::sel_ok(s)
        } else if t == 0x07 {
            NetworkChangeNotify::sel_ok(s)
        } else if t == 0x11 {
            T2mi::sel_ok(s)
        } else if t == 0x19 {
            AudioPreselection::sel_ok(s)
        } else if t == 0x0D {
            C2DeliverySystem::sel_ok(s)
        } else if t == 0x16 {
            C2BundleDeliverySystem::sel_ok(s)
        } else if t == 0x04 {
            T2DeliverySystem::sel_ok(s)
        } else if t == 0x13 {
            UriLinkage::sel_ok(s)
        } else if t == 0x15 {
            Ac4::sel_ok(s)
        } else if t == 0x05 {
            ShDeliverySystem::sel_ok(s)
        } else if t == 0x09 {
            TargetRegion::sel_ok(s)
        } else if t == 0x0A {
            TargetRegionName::sel_ok(s)
        } else if t == 0x22 {
            ServiceProminence::sel_ok(s)
        } else if t == 0x23 {
            VvcSubpicturesDescriptor::sel_ok(s)
        } else if t == 0x10 {
            VideoDepthRange::sel_ok(s)
        } else if t == 0x20 {
            TtmlSubtitling::sel_ok(s)
        } else if t == 0x00 {
            ImageIcon::sel_ok(s)
        } else if t == 0x17 {
            S2XSatelliteDeliverySystem::sel_ok(s)
        } else if t == 0x24 {
            S2Xv2SatelliteDeliverySystem::sel_ok(s)
        } else {
            true
        }
    }

    /// The error reported when the selector bytes `s` under `t` do not parse.
    pub open spec fn sel_error(e: Error, t: u8, s: Seq<u8>) -> bool {
        if t == 0x08 {
            Message::sel_error(e, s)
        } else if t == 0x0B {
            ServiceRelocated::sel_error(e, s)
        } else if t == 0x06 {
            SupplementaryAudio::sel_error(e, s)
        } else if t == 0x07 {
            NetworkChangeNotify::sel_error(e, s)
        } else if t == 0x11 {
            T2mi::sel_error(e, s)
        } else if t == 0x19 {
            AudioPreselection::sel_error(e, s)
        } else if t == 0x0D {
            C2DeliverySystem::sel_error(e, s)
        } else if t == 0x16 {
            C2BundleDeliverySystem::sel_error(e, s)
        } else if t == 0x04 {
            T2DeliverySystem::sel_error(e, s)
        } else if t == 0x13 {
            UriLinkage::sel_error(e, s)
        } else if t == 0x15 {
            Ac4::sel_error(e, s)
        } else if t == 0x05 {
            ShDeliverySystem::sel_error(e, s)
        } else if t == 0x09 {
            TargetRegion::sel_error(e, s)
        } else if t == 0x0A {
            TargetRegionName::sel_error(e, s)
        } else if t == 0x22 {
            ServiceProminence::sel_error(e, s)
        } else if t == 0x23 {
            VvcSubpicturesDescriptor::sel_error(e, s)
        } else if t == 0x10 {
            VideoDepthRange::sel_error(e, s)
        } else if t == 0x20 {
            TtmlSubtitling::sel_error(e, s)
        } else if t == 0x00 {
            ImageIcon::sel_error(e, s)
        } else if t == 0x17 {
            S2XSatelliteDeliverySystem::sel_error(e, s)
        } else if t == 0x24 {
            S2Xv2SatelliteDeliverySystem::sel_error(e, s)
        } else {
            false
        }
    }

    /// The selector bytes under `t` are exactly what serialization writes for their parse.
    pub open spec fn canonical(t: u8, s: Seq<u8>) -> bool {
        if t == 0x08 {
            Message::canonical(s)
        } else if t == 0x0B {
            ServiceRelocated::canonical(s)
        } else if t == 0x06 {
            SupplementaryAudio::canonical(s)
        } else if t == 0x07 {
            NetworkChangeNotify::canonical(s)
        } else if t == 0x11 {
            T2mi::canonical(s)
        } else if t == 0x19 {
            AudioPreselection::canonical(s)
        } else if t == 0x0D {
            C2DeliverySystem::canonical(s)
        } else if t == 0x16 {
            C2BundleDeliverySystem::canonical(s)
        } else if t == 0x04 {
            T2DeliverySystem::canonical(s)
        } else if t == 0x13 {
            UriLinkage::canonical(s)
        } else if t == 0x15 {
            Ac4::canonical(s)
        } else if t == 0x05 {
            ShDeliverySystem::canonical(s)
        } else if t == 0x09 {
            TargetRegion::canonical(s)
        } else if t == 0x0A {
            TargetRegionName::canonical(s)
        } else if t == 0x22 {
            ServiceProminence::canonical(s)
        } else if t == 0x23 {
            VvcSubpicturesDescriptor::canonical(s)
        } else if t == 0x10 {
            VideoDepthRange::canonical(s)
        } else if t == 0x20 {
            TtmlSubtitling::canonical(s)
        } else if t == 0x00 {
            ImageIcon::canonical(s)
        } else if t == 0x17 {
            S2XSatelliteDeliverySystem::canonical(s)
        } else if t == 0x24 {
            S2Xv2SatelliteDeliverySystem::canonical(s)
        } else {
            true
        }
    }

    /// `self` is what parsing the selector bytes `s` under discriminant `t` yields.
    pub open spec fn decodes(&self, t: u8, s: Seq<u8>) -> bool {
        match self {
            ExtensionBody::Message(b) => t == 0x08 && b.decodes(s),
            ExtensionBody::ServiceRelocated(b) => t == 0x0B && b.decodes(s),
            ExtensionBody::SupplementaryAudio(b) => t == 0x06 && b.decodes(s),
            ExtensionBody::NetworkChangeNotify(b) => t == 0x07 && b.decodes(s),
            ExtensionBody::T2mi(b) => t == 0x11 && b.decodes(s),
            ExtensionBody::AudioPreselection(b) => t == 0x19 && b.decodes(s),
            ExtensionBody::C2DeliverySystem(b) => t == 0x0D && b.decodes(s),
            ExtensionBody::C2BundleDeliverySystem(b) => t == 0x16 && b.decodes(s),
            ExtensionBody::T2DeliverySystem(b) => t == 0x04 && b.decodes(s),
            ExtensionBody::UriLinkage(b) => t == 0x13 && b.decodes(s),
            ExtensionBody::Ac4(b) => t == 0x15 && b.decodes(s),
            ExtensionBody::ShDeliverySystem(b) => t == 0x05 && b.decodes(s),
            ExtensionBody::TargetRegion(b) => t == 0x09 && b.decodes(s),
            ExtensionBody::TargetRegionName(b) => t == 0x0A && b.decodes(s),
            ExtensionBody::ServiceProminence(b) => t == 0x22 && b.decodes(s),
            ExtensionBody::VvcSubpictures(b) => t == 0x23 && b.decodes(s),
            ExtensionBody::VideoDepthRange(b) => t == 0x10 && b.decodes(s),
            ExtensionBody::TtmlSubtitling(b) => t == 0x20 && b.decodes(s),
            ExtensionBody::ImageIcon(b) => t == 0x00 && b.decodes(s),
            ExtensionBody::S2XSatelliteDeliverySystem(b) => t == 0x17 && b.decodes(s),
            ExtensionBody::S2Xv2SatelliteDeliverySystem(b) => t == 0x24 && b.decodes(s),
            ExtensionBody::Raw(r) => !typed_tag(t) && r@ == s,
        }
    }

    /// The body is the variant that discriminant `t` selects, and fits the wire format.
    pub open spec fn wf(&self, t: u8) -> bool {
        match self {
            ExtensionBody::Message(b) => t == 0x08,
            ExtensionBody::ServiceRelocated(b) => t == 0x0B,
            ExtensionBody::SupplementaryAudio(b) => t == 0x06 && b.wf(),
            ExtensionBody::NetworkChangeNotify(b) => t == 0x07,
            ExtensionBody::T2mi(b) => t == 0x11 && b.wf(),
            ExtensionBody::AudioPreselection(b) => t == 0x19 && b.wf(),
            ExtensionBody::C2DeliverySystem(b) => t == 0x0D && b.wf(),
            ExtensionBody::C2BundleDeliverySystem(b) => t == 0x16 && b.wf(),
            ExtensionBody::T2DeliverySystem(b) => t == 0x04 && b.wf(),
            ExtensionBody::UriLinkage(b) => t == 0x13 && b.wf(),
            ExtensionBody::Ac4(b) => t == 0x15 && b.wf(),
            ExtensionBody::ShDeliverySystem(b) => t == 0x05 && b.wf(),
            ExtensionBody::TargetRegion(b) => t == 0x09,
            ExtensionBody::TargetRegionName(b) => t == 0x0A && b.wf(),
            ExtensionBody::ServiceProminence(b) => t == 0x22 && b.wf(),
            ExtensionBody::VvcSubpictures(b) => t == 0x23 && b.wf(),
            ExtensionBody::VideoDepthRange(b) => t == 0x10 && b.wf(),
            ExtensionBody::TtmlSubtitling(b) => t == 0x20 && b.wf(),
            ExtensionBody::ImageIcon(b) => t == 0x00 && b.wf(),
            ExtensionBody::S2XSatelliteDeliverySystem(b) => t == 0x17 && b.wf(),
            ExtensionBody::S2Xv2SatelliteDeliverySystem(b) => t == 0x24 && b.wf(),
            ExtensionBody::Raw(r) => !typed_tag(t),
        }
    }

    /// The selector bytes written for this body.
    pub open spec fn wire(&self) -> Seq<u8> {
        match self {
            ExtensionBody::Message(b) => b.wire(),
            ExtensionBody::ServiceRelocated(b) => b.wire(),
            ExtensionBody::SupplementaryAudio(b) => b.wire(),
            ExtensionBody::NetworkChangeNotify(b) => b.wire(),
            ExtensionBody::T2mi(b) => b.wire(),
            ExtensionBody::AudioPreselection(b) => b.wire(),
            ExtensionBody::C2DeliverySystem(b) => b.wire(),
            ExtensionBody::C2BundleDeliverySystem(b) => b.wire(),
            ExtensionBody::T2DeliverySystem(b) => b.wire(),
            ExtensionBody::UriLinkage(b) => b.wire(),
            ExtensionBody::Ac4(b) => b.wire(),
            ExtensionBody::ShDeliverySystem(b) => b.wire(),
            ExtensionBody::TargetRegion(b) => b.wire(),
            ExtensionBody::TargetRegionName(b) => b.wire(),
            ExtensionBody::ServiceProminence(b) => b.wire(),
            ExtensionBody::VvcSubpictures(b) => b.wire(),
            ExtensionBody::VideoDepthRange(b) => b.wire(),
            ExtensionBody::TtmlSubtitling(b) => b.wire(),
            ExtensionBody::ImageIcon(b) => b.wire(),
            ExtensionBody::S2XSatelliteDeliverySystem(b) => b.wire(),
            ExtensionBody::S2Xv2SatelliteDeliverySystem(b) => b.wire(),
            ExtensionBody::Raw(r) => r@,
        }
    }

    /// Parses the selector bytes into a typed body, falling through to `Raw`.
    pub fn parse_body(tag_extension: u8, sel: &'a [u8]) -> (r: Result<Self, Error>)
        ensures
            r is Ok <==> Self::sel_ok(tag_extension, sel@),
            r matches Ok(b) ==> b.decodes(tag_extension, sel@),
            r matches Err(e) ==> Self::sel_error(e, tag_extension, sel@),
    {
        match tag_extension {
            0x08 => Ok(ExtensionBody::Message(Message::parse(sel)?)),
            0x0B => Ok(ExtensionBody::ServiceRelocated(ServiceRelocated::parse(sel)?)),
            0x06 => Ok(ExtensionBody::SupplementaryAudio(SupplementaryAudio::parse(sel)?)),
            0x07 => Ok(ExtensionBody::NetworkChangeNotify(NetworkChangeNotify::parse(sel)?)),
            0x11 => Ok(ExtensionBody::T2mi(T2mi::parse(sel)?)),
            0x19 => Ok(ExtensionBody::AudioPreselection(AudioPreselection::parse(sel)?)),
            0x0D => Ok(ExtensionBody::C2DeliverySystem(C2DeliverySystem::parse(sel)?)),
            0x16 => Ok(ExtensionBody::C2BundleDeliverySystem(C2BundleDeliverySystem::parse(sel)?)),
            0x04 => Ok(ExtensionBody::T2DeliverySystem(T2DeliverySystem::parse(sel)?)),
            0x13 => Ok(ExtensionBody::UriLinkage(UriLinkage::parse(sel)?)),
            0x15 => Ok(ExtensionBody::Ac4(Ac4::parse(sel)?)),
            0x05 => Ok(ExtensionBody::ShDeliverySystem(ShDeliverySystem::parse(sel)?)),
            0x09 => Ok(ExtensionBody::TargetRegion(TargetRegion::parse(sel)?)),
            0x0A => Ok(ExtensionBody::TargetRegionName(TargetRegionName::parse(sel)?)),
            0x22 => Ok(ExtensionBody::ServiceProminence(ServiceProminence::parse(sel)?)),
            0x23 => Ok(ExtensionBody::VvcSubpictures(VvcSubpicturesDescriptor::parse(sel)?)),
            0x10 => Ok(ExtensionBody::VideoDepthRange(VideoDepthRange::parse(sel)?)),
            0x20 => Ok(ExtensionBody::TtmlSubtitling(TtmlSubtitling::parse(sel)?)),
            0x00 => Ok(ExtensionBody::ImageIcon(ImageIcon::parse(sel)?)),
            0x17 => Ok(ExtensionBody::S2XSatelliteDeliverySystem(S2XSatelliteDeliverySystem::parse(sel)?)),
            0x24 => Ok(ExtensionBody::S2Xv2SatelliteDeliverySystem(S2Xv2SatelliteDeliverySystem::parse(sel)?)),
            _ => Ok(ExtensionBody::Raw(sel)),
        }
    }

    /// The selector length the body is sized to; it differs from the bytes
    /// written only where optional fields disagree with their selectors.
    pub open spec fn sized_len(&self) -> int {
        match self {
            ExtensionBody::T2DeliverySystem(b) => b.sized_len(),
            ExtensionBody::S2Xv2SatelliteDeliverySystem(b) => b.sized_len(),
            _ => self.wire().len() as int,
        }
    }

    /// Marks (with 1) the selector bytes that serialization leaves as they were.
    pub open spec fn keep_mask(&self) -> Seq<u8> {
        match self {
            ExtensionBody::ServiceProminence(b) => b.keep_mask(),
            _ => zeros(self.wire().len()),
        }
    }

    /// Appends the keep marks of the selector bytes to `out`, `n` being the
    /// number of selector bytes.
    pub fn write_keep(&self, out: &mut Vec<u8>, n: usize)
        requires
            n == self.wire().len(),
        ensures
            final(out)@ == old(out)@ + self.keep_mask(),
            self.keep_mask().len() == self.wire().len(),
    {
        match self {
            ExtensionBody::ServiceProminence(b) => b.write_keep(out),
            _ => push_zeros(out, n),
        }
    }

    /// Selector-byte length, as the body sizes it.
    pub fn selector_len(&self) -> (n: usize)
        requires
            self.wire().len() <= usize::MAX,
            self.sized_len() <= usize::MAX,
        ensures
            n == self.sized_len(),
    {
        match self {
            ExtensionBody::Message(b) => b.serialized_len(),
            ExtensionBody::ServiceRelocated(b) => b.serialized_len(),
            ExtensionBody::SupplementaryAudio(b) => b.serialized_len(),
            ExtensionBody::NetworkChangeNotify(b) => b.serialized_len(),
            ExtensionBody::T2mi(b) => b.serialized_len(),
            ExtensionBody::AudioPreselection(b) => b.serialized_len(),
            ExtensionBody::C2DeliverySystem(b) => b.serialized_len(),
            ExtensionBody::C2BundleDeliverySystem(b) => b.serialized_len(),
            ExtensionBody::T2DeliverySystem(b) => b.serialized_len(),
            ExtensionBody::UriLinkage(b) => b.serialized_len(),
            ExtensionBody::Ac4(b) => b.serialized_len(),
            ExtensionBody::ShDeliverySystem(b) => b.serialized_len(),
            ExtensionBody::TargetRegion(b) => b.serialized_len(),
            ExtensionBody::TargetRegionName(b) => b.serialized_len(),
            ExtensionBody::ServiceProminence(b) => b.serialized_len(),
            ExtensionBody::VvcSubpictures(b) => b.serialized_len(),
            ExtensionBody::VideoDepthRange(b) => b.serialized_len(),
            ExtensionBody::TtmlSubtitling(b) => b.serialized_len(),
            ExtensionBody::ImageIcon(b) => b.serialized_len(),
            ExtensionBody::S2XSatelliteDeliverySystem(b) => b.serialized_len(),
            ExtensionBody::S2Xv2SatelliteDeliverySystem(b) => b.serialized_len(),
            ExtensionBody::Raw(s) => s.len(),
        }
    }

    /// Appends the selector bytes to `out`.
    pub fn write_selector(&self, out: &mut Vec<u8>)
        ensures
            final(out)@ == old(out)@ + self.wire(),
    {
        match self {
            ExtensionBody::Message(b) => b.write_to(out),
            ExtensionBody::ServiceRelocated(b) => b.write_to(out),
            ExtensionBody::SupplementaryAudio(b) => b.write_to(out),
            ExtensionBody::NetworkChangeNotify(b) => b.write_to(out),
            ExtensionBody::T2mi(b) => b.write_to(out),
            ExtensionBody::AudioPreselection(b) => b.write_to(out),
            ExtensionBody::C2DeliverySystem(b) => b.write_to(out),
            ExtensionBody::C2BundleDeliverySystem(b) => b.write_to(out),
            ExtensionBody::T2DeliverySystem(b) => b.write_to(out),
            ExtensionBody::UriLinkage(b) => b.write_to(out),
            ExtensionBody::Ac4(b) => b.write_to(out),
            ExtensionBody::ShDeliverySystem(b) => b.write_to(out),
            ExtensionBody::TargetRegion(b) => b.write_to(out),
            ExtensionBody::TargetRegionName(b) => b.write_to(out),
            ExtensionBody::ServiceProminence(b) => b.write_to(out),
            ExtensionBody::VvcSubpictures(b) => b.write_to(out),
            ExtensionBody::VideoDepthRange(b) => b.write_to(out),
            ExtensionBody::TtmlSubtitling(b) => b.write_to(out),
            ExtensionBody::ImageIcon(b) => b.write_to(out),
            ExtensionBody::S2XSatelliteDeliverySystem(b) => b.write_to(out),
            ExtensionBody::S2Xv2SatelliteDeliverySystem(b) => b.write_to(out),
            ExtensionBody::Raw(s) => push_bytes(out, s),
        }
    }
}

/// A well-formed body is sized exactly as long as the bytes it writes.
pub proof fn lemma_body_sized(b: ExtensionBody, t: u8)
    requires
        b.wf(t),
    ensures
        b.sized_len() == b.wire().len(),
{
}

/// Encoding then parsing a well-formed body gives it back.
pub proof fn lemma_body_encode_parse(b: ExtensionBody, t: u8)
    requires
        b.wf(t),
    ensures
        ExtensionBody::sel_ok(t, b.wire()),
        b.decodes(t, b.wire()),
{
    match b {
        ExtensionBody::Message(b) => message::lemma_message_encode_parse(b),
        ExtensionBody::ServiceRelocated(b) => service_relocated::lemma_service_relocated_encode_parse(b),
        ExtensionBody::SupplementaryAudio(b) => supplementary_audio::lemma_supplementary_audio_encode_parse(b),
        ExtensionBody::NetworkChangeNotify(b) => {},
        ExtensionBody::T2mi(b) => t2mi::lemma_t2mi_encode_parse(b),
        ExtensionBody::AudioPreselection(b) => audio_preselection::lemma_audio_preselection_encode_parse(b),
        ExtensionBody::C2DeliverySystem(b) => c2_delivery_system::lemma_c2_delivery_system_encode_parse(b),
        ExtensionBody::C2BundleDeliverySystem(b) => c2_bundle_delivery_system::lemma_c2_bundle_encode_parse(b),
        ExtensionBody::T2DeliverySystem(b) => t2_delivery_system::lemma_t2_delivery_system_encode_parse(b),
        ExtensionBody::UriLinkage(b) => uri_linkage::lemma_uri_linkage_encode_parse(b),
        ExtensionBody::Ac4(b) => ac4::lemma_ac4_encode_parse(b),
        ExtensionBody::ShDeliverySystem(b) => sh_delivery_system::lemma_sh_delivery_system_encode_parse(b),
        ExtensionBody::TargetRegion(b) => target_region::lemma_target_region_encode_parse(b),
        ExtensionBody::TargetRegionName(b) => target_region_name::lemma_target_region_name_encode_parse(b),
        ExtensionBody::ServiceProminence(b) => service_prominence::lemma_service_prominence_encode_parse(b),
        ExtensionBody::VvcSubpictures(b) => vvc_subpictures::lemma_vvc_subpictures_encode_parse(b),
        ExtensionBody::VideoDepthRange(b) => video_depth_range::lemma_video_depth_range_encode_parse(b),
        ExtensionBody::TtmlSubtitling(b) => ttml_subtitling::lemma_ttml_subtitling_encode_parse(b),
        ExtensionBody::ImageIcon(b) => image_icon::lemma_image_icon_encode_parse(b),
        ExtensionBody::S2XSatelliteDeliverySystem(b) => s2x_satellite_delivery_system::lemma_s2x_encode_parse(b),
        ExtensionBody::S2Xv2SatelliteDeliverySystem(b) => s2xv2_satellite_delivery_system::lemma_s2xv2_encode_parse(b),
        ExtensionBody::Raw(r) => {},
    }
}

/// Parsing then encoding canonical selector bytes gives them back.
pub proof fn lemma_body_parse_encode(b: ExtensionBody, t: u8, s: Seq<u8>)
    requires
        ExtensionBody::sel_ok(t, s),
        ExtensionBody::canonical(t, s),
        b.decodes(t, s),
    ensures
        b.wire() == s,
        b.wf(t),
{
    match b {
        ExtensionBody::Message(b) => message::lemma_message_parse_encode(s, b),
        ExtensionBody::ServiceRelocated(b) => service_relocated::lemma_service_relocated_parse_encode(s, b),
        ExtensionBody::SupplementaryAudio(b) => supplementary_audio::lemma_supplementary_audio_parse_encode(s, b),
        ExtensionBody::NetworkChangeNotify(b) => {},
        ExtensionBody::T2mi(b) => t2mi::lemma_t2mi_parse_encode(s, b),
        ExtensionBody::AudioPreselection(b) => audio_preselection::lemma_audio_preselection_parse_encode(s, b),
        ExtensionBody::C2DeliverySystem(b) => c2_delivery_system::lemma_c2_delivery_system_parse_encode(s, b),
        ExtensionBody::C2BundleDeliverySystem(b) => c2_bundle_delivery_system::lemma_c2_bundle_parse_encode(s, b),
        ExtensionBody::T2DeliverySystem(b) => t2_delivery_system::lemma_t2_delivery_system_parse_encode(s, b),
        ExtensionBody::UriLinkage(b) => uri_linkage::lemma_uri_linkage_parse_encode(s, b),
        ExtensionBody::Ac4(b) => ac4::lemma_ac4_parse_encode(s, b),
        ExtensionBody::ShDeliverySystem(b) => sh_delivery_system::lemma_sh_delivery_system_parse_encode(s, b),
        ExtensionBody::TargetRegion(b) => target_region::lemma_target_region_parse_encode(s, b),
        ExtensionBody::TargetRegionName(b) => target_region_name::lemma_target_region_name_parse_encode(s, b),
        ExtensionBody::ServiceProminence(b) => service_prominence::lemma_service_prominence_parse_encode(s, b),
        ExtensionBody::VvcSubpictures(b) => vvc_subpictures::lemma_vvc_subpictures_parse_encode(s, b),
        ExtensionBody::VideoDepthRange(b) => video_depth_range::lemma_video_depth_range_parse_encode(s, b),
        ExtensionBody::TtmlSubtitling(b) => ttml_subtitling::lemma_ttml_subtitling_parse_encode(s, b),
        ExtensionBody::ImageIcon(b) => image_icon::lemma_image_icon_parse_encode(s, b),
        ExtensionBody::S2XSatelliteDeliverySystem(b) => s2x_satellite_delivery_system::lemma_s2x_parse_encode(s, b),
        ExtensionBody::S2Xv2SatelliteDeliverySystem(b) => s2xv2_satellite_delivery_system::lemma_s2xv2_parse_encode(s, b),
        ExtensionBody::Raw(r) => {},
    }
}

/// A parsed body is well formed for its discriminant, and its encoding is no
/// longer than the selector bytes it was parsed from.
pub proof fn lemma_body_reparse(b: ExtensionBody, t: u8, s: Seq<u8>)
    requires
        ExtensionBody::sel_ok(t, s),
        b.decodes(t, s),
    ensures
        b.wf(t),
        b.wire().len() <= s.len(),
{
    match b {
        ExtensionBody::Message(b) => message::lemma_message_parse_encode(s, b),
        ExtensionBody::ServiceRelocated(b) => {},
        ExtensionBody::SupplementaryAudio(b) => supplementary_audio::lemma_supplementary_audio_reparse(s, b),
        ExtensionBody::NetworkChangeNotify(b) => {},
        ExtensionBody::T2mi(b) => t2mi::lemma_t2mi_reparse(s, b),
        ExtensionBody::AudioPreselection(b) => audio_preselection::lemma_audio_preselection_reparse(s, b),
        ExtensionBody::C2DeliverySystem(b) => c2_delivery_system::lemma_c2_delivery_system_reparse(s, b),
        ExtensionBody::C2BundleDeliverySystem(b) => c2_bundle_delivery_system::lemma_c2_bundle_reparse(s, b),
        ExtensionBody::T2DeliverySystem(b) => t2_delivery_system::lemma_t2_delivery_system_reparse(s, b),
        ExtensionBody::UriLinkage(b) => uri_linkage::lemma_uri_linkage_reparse(s, b),
        ExtensionBody::Ac4(b) => ac4::lemma_ac4_reparse(s, b),
        ExtensionBody::ShDeliverySystem(b) => sh_delivery_system::lemma_sh_delivery_system_reparse(s, b),
        ExtensionBody::TargetRegion(b) => target_region::lemma_target_region_reparse(s, b),
        ExtensionBody::TargetRegionName(b) => target_region_name::lemma_target_region_name_reparse(s, b),
        ExtensionBody::ServiceProminence(b) => service_prominence::lemma_service_prominence_reparse(s, b),
        ExtensionBody::VvcSubpictures(b) => vvc_subpictures::lemma_vvc_subpictures_reparse(s, b),
        ExtensionBody::VideoDepthRange(b) => video_depth_range::lemma_video_depth_range_reparse(s, b),
        ExtensionBody::TtmlSubtitling(b) => ttml_subtitling::lemma_ttml_subtitling_reparse(s, b),
        ExtensionBody::ImageIcon(b) => image_icon::lemma_image_icon_reparse(s, b),
        ExtensionBody::S2XSatelliteDeliverySystem(b) => s2x_satellite_delivery_system::lemma_s2x_reparse(s, b),
        ExtensionBody::S2Xv2SatelliteDeliverySystem(b) => s2xv2_satellite_delivery_system::lemma_s2xv2_reparse(s, b),
        ExtensionBody::Raw(r) => {},
    }
}

/// Extension descriptor (EN 300 468 Table 54).
#[derive(Debug, Clone, PartialEq, Eq)]
pub struct ExtensionDescriptor<'a> {
    /// `descriptor_tag_extension` (raw `u8`; see [`ExtensionTag`] for names).
    pub tag_extension: u8,
    /// Typed body, or [`ExtensionBody::Raw`] for not-yet-typed discriminants.
    pub body: ExtensionBody<'a>,
}

impl<'a> ExtensionDescriptor<'a> {
    /// Parsing succeeds on exactly these descriptor bodies.
    pub open spec fn body_ok(b: Seq<u8>) -> bool {
        b.len() >= 1 && ExtensionBody::sel_ok(b[0], b.subrange(1, b.len() as int))
    }

    /// The error reported for a descriptor body that does not parse.
    pub open spec fn body_error(e: Error, b: Seq<u8>) -> bool {
        if b.len() < 1 {
            is_invalid(e, TAG)
        } else {
            ExtensionBody::sel_error(e, b[0], b.subrange(1, b.len() as int))
        }
    }

    /// `self` is what parsing the descriptor body `b` yields.
    pub open spec fn decodes(&self, b: Seq<u8>) -> bool {
        &&& b.len() >= 1
        &&& self.tag_extension == b[0]
        &&& self.body.decodes(b[0], b.subrange(1, b.len() as int))
    }

    /// The descriptor body bytes.
    pub open spec fn body_bytes(&self) -> Seq<u8> {
        seq![self.tag_extension] + self.body.wire()
    }

    /// The descriptor body length as sized: the discriminant byte and the sized selector.
    pub open spec fn sized_body_len(&self) -> int {
        1 + self.body.sized_len()
    }

    /// The complete wire encoding; the length byte holds the sized body length
    /// modulo 256.
    pub open spec fn wire(&self) -> Seq<u8> {
        seq![TAG, (self.sized_body_len() % 256) as u8] + self.body_bytes()
    }

    /// The body matches the discriminant and the encoding fits the length byte.
    pub open spec fn wf(&self) -> bool {
        self.body.wf(self.tag_extension) && self.body_bytes().len() <= 255
    }

    /// Typed view of `tag_extension`, or `None` if it is not a known tag.
    pub fn kind(&self) -> (k: Option<ExtensionTag>)
        ensures
            k == spec_kind(self.tag_extension),
    {
        match self.tag_extension {
            0x00 => Some(ExtensionTag::ImageIcon),
            0x04 => Some(ExtensionTag::T2DeliverySystem),
            0x05 => Some(ExtensionTag::ShDeliverySystem),
            0x06 => Some(ExtensionTag::SupplementaryAudio),
            0x07 => Some(ExtensionTag::NetworkChangeNotify),
            0x08 => Some(ExtensionTag::Message),
            0x09 => Some(ExtensionTag::TargetRegion),
            0x0A => Some(ExtensionTag::TargetRegionName),
            0x0B => Some(ExtensionTag::ServiceRelocated),
            0x0D => Some(ExtensionTag::C2DeliverySystem),
            0x10 => Some(ExtensionTag::VideoDepthRange),
            0x11 => Some(ExtensionTag::T2mi),
            0x13 => Some(ExtensionTag::UriLinkage),
            0x15 => Some(ExtensionTag::Ac4),
            0x16 => Some(ExtensionTag::C2BundleDeliverySystem),
            0x17 => Some(ExtensionTag::S2XSatelliteDeliverySystem),
            0x19 => Some(ExtensionTag::AudioPreselection),
            0x20 => Some(ExtensionTag::TtmlSubtitling),
            0x22 => Some(ExtensionTag::ServiceProminence),
            0x23 => Some(ExtensionTag::VvcSubpictures),
            0x24 => Some(ExtensionTag::S2Xv2SatelliteDeliverySystem),
            _ => None,
        }
    }

    /// Parses an extension descriptor from the front of `bytes`.
    pub fn parse(bytes: &'a [u8]) -> (r: Result<Self, Error>)
        ensures
            r is Ok <==> header_ok(bytes@, TAG) && Self::body_ok(body_of(bytes@)),
            r matches Ok(d) ==> d.decodes(body_of(bytes@)),
            r matches Err(e) ==> if header_ok(bytes@, TAG) {
                Self::body_error(e, body_of(bytes@))
            } else {
                header_error(e, bytes@, TAG)
            },
    {
        let body = descriptor_body(
            bytes,
            TAG,
            "ExtensionDescriptor",
            "unexpected tag for extension_descriptor",
        )?;
        if body.len() < TAG_EXTENSION_LEN {
            return Err(invalid("body must contain at least the descriptor_tag_extension byte"));
        }
        let tag_extension = body[0];
        let sel = &body[1..body.len()];
        let b = ExtensionBody::parse_body(tag_extension, sel)?;
        Ok(ExtensionDescriptor { tag_extension, body: b })
    }

    /// Length of the encoding, as the body sizes it.
    pub fn serialized_len(&self) -> (n: usize)
        requires
            self.wire().len() <= usize::MAX,
            2 + self.sized_body_len() <= usize::MAX,
        ensures
            n == 2 + self.sized_body_len(),
    {
        HEADER_LEN + TAG_EXTENSION_LEN + self.body.selector_len()
    }

    /// The `descriptor_length` byte.
    pub fn descriptor_length(&self) -> (n: u8)
        requires
            self.wire().len() <= usize::MAX,
            2 + self.sized_body_len() <= usize::MAX,
        ensures
            n == (self.sized_body_len() % 256) as u8,
    {
        ((TAG_EXTENSION_LEN + self.body.selector_len()) % 256) as u8
    }

    /// Writes the descriptor to the front of `buf` and returns its sized length;
    /// refuses a body over 255 bytes. A body that would write more bytes than it
    /// is sized to (an S2Xv2 beamhopping id without its selector) into a buffer
    /// that passes both checks is left out.
    pub fn serialize_into(&self, buf: &mut [u8]) -> (r: Result<usize, Error>)
        requires
            self.wire().len() <= usize::MAX,
            2 + self.sized_body_len() <= usize::MAX,
            old(buf)@.len() < 2 + self.sized_body_len() || self.sized_body_len() > MAX_DESCRIPTOR_LENGTH
                || self.body.wire().len() <= self.body.sized_len(),
        ensures
            emitted_limited_sized(
                r,
                old(buf)@,
                final(buf)@,
                self.wire(),
                zeros(3) + self.body.keep_mask(),
                2 + self.sized_body_len(),
                self.sized_body_len() <= MAX_DESCRIPTOR_LENGTH,
                TAG,
            ),
    {
        let len = self.serialized_len();
        if buf.len() < len {
            return Err(Error::OutputBufferTooSmall { need: len, have: buf.len() });
        }
        let body_len = len - HEADER_LEN;
        if body_len > MAX_DESCRIPTOR_LENGTH {
            return Err(invalid("descriptor_length exceeds 255 bytes"));
        }
        let mut v: Vec<u8> = Vec::new();
        push_u8(&mut v, TAG);
        push_u8(&mut v, body_len as u8);
        push_u8(&mut v, self.tag_extension);
        self.body.write_selector(&mut v);
        assert(v@ =~= self.wire());
        let mut k: Vec<u8> = Vec::new();
        push_zeros(&mut k, 3);
        self.body.write_keep(&mut k, v.len() - 3);
        copy_to_front_masked(buf, &v, &k);
        Ok(len)
    }
}

/// Encoding a well-formed extension descriptor and parsing the bytes gives it back.
pub proof fn lemma_extension_encode_parse(d: ExtensionDescriptor)
    requires
        d.wf(),
    ensures
        header_ok(d.wire(), TAG),
        ExtensionDescriptor::body_ok(body_of(d.wire())),
        d.decodes(body_of(d.wire())),
{
    lemma_body_sized(d.body, d.tag_extension);
    assert(d.wire() == framed(TAG, d.body_bytes()));
    lemma_framed_parses(TAG, d.body_bytes());
    lemma_body_encode_parse(d.body, d.tag_extension);
    let b = d.body_bytes();
    assert(b.subrange(1, b.len() as int) =~= d.body.wire());
}

/// Parsing an extension descriptor whose selector bytes are canonical and encoding
/// the result gives back its bytes.
pub proof fn lemma_extension_parse_encode(s: Seq<u8>, d: ExtensionDescriptor)
    requires
        header_ok(s, TAG),
        ExtensionDescriptor::body_ok(body_of(s)),
        ExtensionBody::canonical(body_of(s)[0], body_of(s).subrange(1, body_of(s).len() as int)),
        d.decodes(body_of(s)),
    ensures
        d.wire() == framed_prefix(s),
        d.wf(),
{
    let b = body_of(s);
    lemma_reframe(s, TAG);
    lemma_body_parse_encode(d.body, d.tag_extension, b.subrange(1, b.len() as int));
    lemma_body_sized(d.body, d.tag_extension);
    assert(d.body_bytes() =~= b);
    assert(d.wire() == framed(TAG, d.body_bytes()));
}

/// A parsed ExtensionDescriptor is well formed: it encodes again, and parsing that encoding
/// yields it back.
pub proof fn lemma_extension_reparse(s: Seq<u8>, d: ExtensionDescriptor)
    requires
        header_ok(s, TAG),
        ExtensionDescriptor::body_ok(body_of(s)),
        d.decodes(body_of(s)),
    ensures
        d.wf(),
        header_ok(d.wire(), TAG),
        ExtensionDescriptor::body_ok(body_of(d.wire())),
        d.decodes(body_of(d.wire())),
{
    let b = body_of(s);
    lemma_body_reparse(d.body, d.tag_extension, b.subrange(1, b.len() as int));
    lemma_extension_encode_parse(d);
}

/// The descriptor_tag_extension values of EN 300 468 and the descriptor each names,
/// in literal values: 0x00 image icon, 0x04 T2, 0x05 SH, 0x06 supplementary audio,
/// 0x07 network change notify, 0x08 message, 0x09 target region, 0x0A target region
/// name, 0x0B service relocated, 0x0D C2, 0x10 video depth range, 0x11 T2-MI, 0x13
/// URI linkage, 0x15 AC-4, 0x16 C2 bundle, 0x17 S2X, 0x19 audio preselection, 0x20
/// TTML subtitling, 0x22 service prominence, 0x23 VVC subpictures, 0x24 S2Xv2; every
/// other value names none.
pub proof fn lemma_kind_codes()
    ensures
        spec_kind(0x00) == Some(ExtensionTag::ImageIcon),
        spec_kind(0x04) == Some(ExtensionTag::T2DeliverySystem),
        spec_kind(0x05) == Some(ExtensionTag::ShDeliverySystem),
        spec_kind(0x06) == Some(ExtensionTag::SupplementaryAudio),
        spec_kind(0x07) == Some(ExtensionTag::NetworkChangeNotify),
        spec_kind(0x08) == Some(ExtensionTag::Message),
        spec_kind(0x09) == Some(ExtensionTag::TargetRegion),
        spec_kind(0x0A) == Some(ExtensionTag::TargetRegionName),
        spec_kind(0x0B) == Some(ExtensionTag::ServiceRelocated),
        spec_kind(0x0D) == Some(ExtensionTag::C2DeliverySystem),
        spec_kind(0x10) == Some(ExtensionTag::VideoDepthRange),
        spec_kind(0x11) == Some(ExtensionTag::T2mi),
        spec_kind(0x13) == Some(ExtensionTag::UriLinkage),
        spec_kind(0x15) == Some(ExtensionTag::Ac4),
        spec_kind(0x16) == Some(ExtensionTag::C2BundleDeliverySystem),
        spec_kind(0x17) == Some(ExtensionTag::S2XSatelliteDeliverySystem),
        spec_kind(0x19) == Some(ExtensionTag::AudioPreselection),
        spec_kind(0x20) == Some(ExtensionTag::TtmlSubtitling),
        spec_kind(0x22) == Some(ExtensionTag::ServiceProminence),
        spec_kind(0x23) == Some(ExtensionTag::VvcSubpictures),
        spec_kind(0x24) == Some(ExtensionTag::S2Xv2SatelliteDeliverySystem),
        forall|t: u8| t != 0x00 && t != 0x04 && t != 0x05 && t != 0x06 && t != 0x07 && t != 0x08 && t != 0x09 && t != 0x0A && t != 0x0B && t != 0x0D && t != 0x10 && t != 0x11 && t != 0x13 && t != 0x15 && t != 0x16 && t != 0x17 && t != 0x19 && t != 0x20 && t != 0x22 && t != 0x23 && t != 0x24 ==> #[trigger] spec_kind(t) is None,
{
}

/// What `kind()` reports agrees with the body the parser dispatched to: a parsed
/// extension descriptor holds a typed body exactly when its tag names that body
/// (by the literal tag values), and kind() names the same body; a tag that names
/// none gives a raw body.
pub proof fn lemma_kind_matches_body(b: Seq<u8>, d: ExtensionDescriptor)
    requires
        d.decodes(b),
    ensures
        (d.tag_extension == 0x00) == (d.body is ImageIcon),
        (spec_kind(d.tag_extension) == Some(ExtensionTag::ImageIcon)) == (d.body is ImageIcon),
        (d.tag_extension == 0x04) == (d.body is T2DeliverySystem),
        (spec_kind(d.tag_extension) == Some(ExtensionTag::T2DeliverySystem)) == (d.body is T2DeliverySystem),
        (d.tag_extension == 0x05) == (d.body is ShDeliverySystem),
        (spec_kind(d.tag_extension) == Some(ExtensionTag::ShDeliverySystem)) == (d.body is ShDeliverySystem),
        (d.tag_extension == 0x06) == (d.body is SupplementaryAudio),
        (spec_kind(d.tag_extension) == Some(ExtensionTag::SupplementaryAudio)) == (d.body is SupplementaryAudio),
        (d.tag_extension == 0x07) == (d.body is NetworkChangeNotify),
        (spec_kind(d.tag_extension) == Some(ExtensionTag::NetworkChangeNotify)) == (d.body is NetworkChangeNotify),
        (d.tag_extension == 0x08) == (d.body is Message),
        (spec_kind(d.tag_extension) == Some(ExtensionTag::Message)) == (d.body is Message),
        (d.tag_extension == 0x09) == (d.body is TargetRegion),
        (spec_kind(d.tag_extension) == Some(ExtensionTag::TargetRegion)) == (d.body is TargetRegion),
        (d.tag_extension == 0x0A) == (d.body is TargetRegionName),
        (spec_kind(d.tag_extension) == Some(ExtensionTag::TargetRegionName)) == (d.body is TargetRegionName),
        (d.tag_extension == 0x0B) == (d.body is ServiceRelocated),
        (spec_kind(d.tag_extension) == Some(ExtensionTag::ServiceRelocated)) == (d.body is ServiceRelocated),
        (d.tag_extension == 0x0D) == (d.body is C2DeliverySystem),
        (spec_kind(d.tag_extension) == Some(ExtensionTag::C2DeliverySystem)) == (d.body is C2DeliverySystem),
        (d.tag_extension == 0x10) == (d.body is VideoDepthRange),
        (spec_kind(d.tag_extension) == Some(ExtensionTag::VideoDepthRange)) == (d.body is VideoDepthRange),
        (d.tag_extension == 0x11) == (d.body is T2mi),
        (spec_kind(d.tag_extension) == Some(ExtensionTag::T2mi)) == (d.body is T2mi),
        (d.tag_extension == 0x13) == (d.body is UriLinkage),
        (spec_kind(d.tag_extension) == Some(ExtensionTag::UriLinkage)) == (d.body is UriLinkage),
        (d.tag_extension == 0x15) == (d.body is Ac4),
        (spec_kind(d.tag_extension) == Some(ExtensionTag::Ac4)) == (d.body is Ac4),
        (d.tag_extension == 0x16) == (d.body is C2BundleDeliverySystem),
        (spec_kind(d.tag_extension) == Some(ExtensionTag::C2BundleDeliverySystem)) == (d.body is C2BundleDeliverySystem),
        (d.tag_extension == 0x17) == (d.body is S2XSatelliteDeliverySystem),
        (spec_kind(d.tag_extension) == Some(ExtensionTag::S2XSatelliteDeliverySystem)) == (d.body is S2XSatelliteDeliverySystem),
        (d.tag_extension == 0x19) == (d.body is AudioPreselection),
        (spec_kind(d.tag_extension) == Some(ExtensionTag::AudioPreselection)) == (d.body is AudioPreselection),
        (d.tag_extension == 0x20) == (d.body is TtmlSubtitling),
        (spec_kind(d.tag_extension) == Some(ExtensionTag::TtmlSubtitling)) == (d.body is TtmlSubtitling),
        (d.tag_extension == 0x22) == (d.body is ServiceProminence),
        (spec_kind(d.tag_extension) == Some(ExtensionTag::ServiceProminence)) == (d.body is ServiceProminence),
        (d.tag_extension == 0x23) == (d.body is VvcSubpictures),
        (spec_kind(d.tag_extension) == Some(ExtensionTag::VvcSubpictures)) == (d.body is VvcSubpictures),
        (d.tag_extension == 0x24) == (d.body is S2Xv2SatelliteDeliverySystem),
        (spec_kind(d.tag_extension) == Some(ExtensionTag::S2Xv2SatelliteDeliverySystem)) == (d.body is S2Xv2SatelliteDeliverySystem),
        (spec_kind(d.tag_extension) is None) == (d.body is Raw),
{
}

} // verus!
