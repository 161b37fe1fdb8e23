//! A verified model of a single on/off lightbulb with an append-only
//! activity log and a derived usage summary.
//!
//! The crate provides:
//! - [`light::Lightbulb`]: the controller owning the on/off flag and the log;
//! - [`log`]: the log-line format and the in-memory log store;
//! - [`summary`]: the usage-summary report, a pure function of the log text;
//! - [`resource`]: the catalogue of readable resources and their dispatch.
//!
//! File-backed storage and the RPC framing around these functions perform
//! I/O and therefore live outside this library; they call in with plain
//! strings and get plain strings back.

pub mod light;
pub mod log;
pub mod resource;
pub mod summary;
pub mod text;
