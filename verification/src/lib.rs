//! Core of a removable-media ingest tool.
//!
//! The library models the three parts of the tool that carry real logic:
//! a progress snapshot shared with a display layer, the per-tick bookkeeping
//! of a recursive copy (byte counters, preview selection, log discipline),
//! and the polling watcher that turns newly mounted volumes into pending
//! copy requests. File and device I/O stay outside; the library works on
//! plain values (paths as strings, byte counts, tick records) handed in by
//! its caller.

pub mod config;
pub mod devices;
pub mod engine;
pub mod progress;
pub mod queue;
pub mod text;
pub mod watcher;
