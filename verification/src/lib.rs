//! Verified core of an incremental game-client updater.
//!
//! The library covers update resolution and diff application: version
//! sequencing, the three diff-format decoders, pre-patch integrity checking,
//! and the planning half of the patch and delete executors. File and process
//! I/O stays outside; the functions here take plain values (bytes, strings,
//! decoded structures) and return decisions with proved contracts.

pub mod customdiff;
pub mod decimal;
pub mod deletefiles;
pub mod diff;
pub mod errors;
pub mod hdiff;
pub mod integrity;
pub mod json;
pub mod manager;
pub mod manifest;
pub mod text;
pub mod version;
