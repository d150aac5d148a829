//! Star the repositories behind a manifest's dependencies.
//!
//! The library holds the verified core of the pipeline: parsing repository
//! URLs into `{user, name}` identifiers, filtering candidate URLs out of
//! registry metadata, partitioning URLs into located repositories and
//! per-item errors, and aggregating the outcomes of a batch of lookups or
//! star requests. Reading the manifest, querying the registry and talking
//! to the forge are left to the surrounding program, which hands this
//! library plain values.

pub mod app;
pub mod batch;
pub mod crates;
pub mod github;
pub mod project;
pub mod text;
