//! Update engine of the Amax client updater.
//!
//! The crate decides; it never touches the network or the disk. A caller
//! fetches version strings, archive listings and results of file operations,
//! hands them in as plain values, and carries out the plans that come back.

pub mod apply;
pub mod backup;
pub mod client;
pub mod download;
pub mod extract;
pub mod layout;
pub mod orchestrator;
pub mod paths;
pub mod plan;
pub mod text;
pub mod version;
