//! Host-telemetry smoothing and installer-pipeline engine.
//!
//! The crate models the display side of a system dashboard: exponential
//! smoothing of sampled values, differential network counters, selection of
//! physical interfaces and fixed drives, detection of installed applications
//! from probe results, and the download-and-run state machine of a batch
//! installer.  All quantities are integers (fixed-point where the display
//! wants a fraction) and all text is handled as UTF-8 bytes; the thin
//! executable shell converts at the edges and performs the actual I/O.

pub mod catalog;
pub mod counters;
pub mod dashboard;
pub mod detect;
pub mod gpu;
pub mod pipeline;
pub mod schedule;
pub mod smoothing;
pub mod telemetry;
pub mod text;
pub mod units;
