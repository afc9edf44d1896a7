//! Incremental build engine for a small static site: per-resource timing,
//! the persisted manifest of timings, classification of source files, change
//! detection, the rebuild plan and the watch-mode decisions.
/// The error type of the library.
pub mod errors;
/// Timing of a resource and the manifest of timings.
pub mod config;
/// The data each page is rendered from.
pub mod templates;
/// Classification, change detection and the plan of a build cycle.
pub mod resource;
/// Decisions of the watch loop.
pub mod serve;
/// Text helpers: UTF-8 decoding and the inline style of highlighted code.
pub mod util;
mod bridge;
