//! Attestation ingestion and catalog checksum protocol for archive keepers.
//!
//! The library states, over mathematical models, how a catalog snapshot is
//! projected, ordered, canonically serialized and digested, and how a
//! submitted attestation is validated and normalized before it is stored.

pub mod attestation;
pub mod canonical;
pub mod catalog;
pub mod checksum;
pub mod metadata;
pub mod validate;
