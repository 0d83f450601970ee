//! Profile and service-definition synchronization core.
//!
//! The persisted store of profiles and shared service definitions is kept
//! consistent with each client application's live configuration.

pub mod json;
pub mod store;
pub mod mcp;
pub mod droid;
pub mod menu;
