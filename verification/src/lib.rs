//! Verified download-orchestration core for a purchased-media library service.
//!
//! The library covers three concerns: paginated, deduplicated retrieval of a
//! user's collection; an encoding-resolution protocol that triggers
//! server-side transcoding and polls until a final download URL is available,
//! extracting provisional URLs from several incompatible page layouts; and a
//! bounded-concurrency download scheduler that isolates per-item failures.
//! Network and disk I/O live outside the library; the core exposes pure
//! decision functions and state machines that a driver feeds with responses.

pub mod chars;
pub mod collection;
pub mod digits;
pub mod errors;
pub mod extract;
pub mod formats;
pub mod item;
pub mod jsonpath;
pub mod manager;
pub mod resolver;
pub mod ui;
pub mod urls;
