//! Development-context snapshot library.
//!
//! The crate gathers signals about a developer's working environment —
//! version-control status, running containers, attached devices, relevant
//! shell commands and a persisted work state — into one snapshot, and renders
//! that snapshot as Markdown at one of three verbosity levels.
//!
//! All parsing, merging and rendering rules live here and are verified.
//! Reading files, spawning the external tools and the transport around the
//! two exposed operations are left to the thin unverified binary that links
//! against this crate; it hands the library plain values only.

pub mod collectors;
pub mod config;
pub mod context;
pub mod formatters;
pub mod raw;
pub mod strutil;
pub mod wizard;
