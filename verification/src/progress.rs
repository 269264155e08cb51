//! Snapshot of an in-flight copy, shared with a display layer.

use vstd::prelude::*;

verus! {

/// An exact fraction `num / den`. Progress and speed are reported this way
/// so that the core states them precisely; a display layer divides as it
/// pleases (for example into a floating-point percentage).
#[derive(Clone, Copy, Debug, PartialEq, Eq, Structural)]
pub struct Ratio {
    pub num: u64,
    pub den: u64,
}

/// The current state of an in-flight copy. A single live instance is
/// created at startup and mutated only by the copy engine while a copy
/// runs; everything else reads it.
///
/// Paths are carried as strings; `elapsed_millis` is the engine's measure
/// of time since the copy started, so that the speed `copied_bytes`
/// per elapsed time stays available as an exact fraction.
#[derive(Clone)]
pub struct ProgressInfo {
    /// Latest human-readable status.
    pub message: String,
    /// Aggregate byte counters across the whole copy.
    pub total_bytes: u64,
    pub copied_bytes: u64,
    /// Byte counters for the file currently in flight.
    pub file_total_bytes: u64,
    pub file_copied_bytes: u64,
    /// Name of the file in flight.
    pub current_file: String,
    /// Set only while the file in flight has a recognized image extension.
    pub preview_path: Option<String>,
    /// Milliseconds since the copy started, as of the latest tick.
    pub elapsed_millis: u64,
}

impl ProgressInfo {
    /// The startup snapshot: all counters zero, no file in flight, and the
    /// waiting message shown until a volume appears.
    pub fn new() -> (p: ProgressInfo)
        ensures
            p.message@ == "Waiting for drive..."@,
            p.total_bytes == 0,
            p.copied_bytes == 0,
            p.file_total_bytes == 0,
            p.file_copied_bytes == 0,
            p.current_file@ == Seq::<char>::empty(),
            p.preview_path is None,
            p.elapsed_millis == 0,
    {
        ProgressInfo {
            message: "Waiting for drive...".to_owned(),
            total_bytes: 0,
            copied_bytes: 0,
            file_total_bytes: 0,
            file_copied_bytes: 0,
            current_file: String::new(),
            preview_path: None,
            elapsed_millis: 0,
        }
    }

    /// Fraction of the whole copy done: `copied_bytes / total_bytes`,
    /// and exactly zero while `total_bytes` is zero.
    pub fn total_progress(&self) -> (r: Ratio)
        ensures
            self.total_bytes == 0 ==> r == (Ratio { num: 0, den: 1 }),
            self.total_bytes != 0 ==> r == (Ratio { num: self.copied_bytes, den: self.total_bytes }),
    {
        if self.total_bytes == 0 {
            Ratio { num: 0, den: 1 }
        } else {
            Ratio { num: self.copied_bytes, den: self.total_bytes }
        }
    }

    /// Fraction of the file in flight done: `file_copied_bytes /
    /// file_total_bytes`, and exactly zero while `file_total_bytes` is zero.
    pub fn file_progress(&self) -> (r: Ratio)
        ensures
            self.file_total_bytes == 0 ==> r == (Ratio { num: 0, den: 1 }),
            self.file_total_bytes != 0 ==> r == (Ratio {
                num: self.file_copied_bytes,
                den: self.file_total_bytes,
            }),
    {
        if self.file_total_bytes == 0 {
            Ratio { num: 0, den: 1 }
        } else {
            Ratio { num: self.file_copied_bytes, den: self.file_total_bytes }
        }
    }

    /// Transfer speed as bytes per millisecond: `copied_bytes /
    /// elapsed_millis`. A zero denominator means no time has been observed
    /// yet and the rate is not defined; the caller decides what to show.
    pub fn speed(&self) -> (r: Ratio)
        ensures
            r == (Ratio { num: self.copied_bytes, den: self.elapsed_millis }),
    {
        Ratio { num: self.copied_bytes, den: self.elapsed_millis }
    }
}

} // verus!
