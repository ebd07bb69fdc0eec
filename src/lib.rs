//! A local, content-addressed versioning store: deduplicated blobs,
//! deterministic manifests, hash-chained commits and branch refs.

pub mod checkpoint;
pub mod command;
pub mod digest;
pub mod laws;
pub mod manifest;
pub mod model;
pub mod state;
pub mod scaffolds;
pub mod stats;
pub mod store;
pub mod text;
pub mod types;
