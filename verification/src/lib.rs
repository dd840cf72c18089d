//! Extraction and validation of digital wallet pass containers.
//!
//! A pass container is a zip archive holding a JSON manifest plus
//! localized resource bundles. This crate opens the container, checks
//! the manifest against the pass schema, detects which pass subtype the
//! manifest carries, and exposes a validated in-memory model.

pub mod container;
pub mod datetime;
pub mod json;
pub mod lookup;
pub mod pass;
