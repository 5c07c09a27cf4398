//! Verified parsing and serialization of DVB service-information descriptors
//! (ETSI EN 300 468): each descriptor decodes from its wire bytes and encodes
//! back to them, with both directions stated over byte sequences.

pub mod error;
pub mod wire;
pub mod runs;
pub mod text;
pub mod bcd;
pub mod descriptors;

pub use error::Error;
