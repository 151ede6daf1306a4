//! A minimal registry of asset-migration records.
//!
//! Each record ties an externally identified asset to the identity that
//! requested its migration. Records live at addresses derived
//! deterministically from the owner identity and the asset identifier, are
//! created exactly once, and advance through a two-state lifecycle
//! (initiated, then completed) guarded by an owner-equality check.

pub mod addressing;
pub mod errors;
pub mod records;
pub mod registry;
