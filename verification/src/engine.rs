//! Per-tick bookkeeping of a recursive copy.
//!
//! The actual file transfer runs outside the library and reports one
//! `TickInfo` per progress callback. The functions here turn each tick
//! into the published `ProgressInfo` snapshot, decide when a log line is
//! owed (once per distinct file, not once per tick), and fix the texts
//! the engine writes: status messages and the marker file a volume keeps
//! so that a later detection resolves the same destination.

use vstd::prelude::*;

use crate::progress::ProgressInfo;
use crate::text::is_image_name;
use crate::text::join_path;
use crate::text::joined_path;
use crate::text::check_image_name;

verus! {

/// One progress callback of the copy in flight: aggregate and per-file
/// byte counters, and the name of the file being copied.
pub struct TickInfo {
    pub total_bytes: u64,
    pub copied_bytes: u64,
    pub file_total_bytes: u64,
    pub file_bytes_copied: u64,
    pub file_name: String,
}

/// What the engine remembers between ticks: the file name of the previous
/// tick, so that a log line is appended only when the name changes.
pub struct CopyTracker {
    pub last_file: String,
}

/// The terminal failure of one copy attempt: any I/O error aborts the
/// whole operation, and its description is carried here.
pub struct CopyError {
    pub detail: String,
}

/// The status message shown while `name` is being copied.
pub open spec fn copying_message_spec(name: Seq<char>) -> Seq<char> {
    "Copying "@ + name
}

/// Builds the status message for the file in flight.
pub fn copying_message(name: &str) -> (r: String)
    ensures
        r@ == copying_message_spec(name@),
{
    let mut out = "Copying ".to_owned();
    out.append(name);
    out
}

/// The preview candidate for a tick: the file's full path under the
/// source, if its extension is a recognized image one; nothing otherwise.
pub open spec fn preview_for(src: Seq<char>, name: Seq<char>) -> Option<Seq<char>> {
    if is_image_name(joined_path(src, name)) {
        Some(joined_path(src, name))
    } else {
        None
    }
}

/// Computes the preview candidate for the file `name` under `src`.
pub fn preview_path_for(src: &str, name: &str) -> (r: Option<String>)
    ensures
        r.deep_view() == preview_for(src@, name@),
{
    let full = join_path(src, name);
    if check_image_name(full.as_str()) {
        Some(full)
    } else {
        None
    }
}

/// The snapshot a tick must publish: counters as reported, the file in
/// flight with its status message, the preview candidate per the image
/// rule, and the engine's elapsed time.
pub open spec fn progress_after_tick(
    p: ProgressInfo,
    src: Seq<char>,
    t: TickInfo,
    elapsed_millis: u64,
) -> bool {
    &&& p.total_bytes == t.total_bytes
    &&& p.copied_bytes == t.copied_bytes
    &&& p.file_total_bytes == t.file_total_bytes
    &&& p.file_copied_bytes == t.file_bytes_copied
    &&& p.current_file@ == t.file_name@
    &&& p.message@ == copying_message_spec(t.file_name@)
    &&& p.preview_path.deep_view() == preview_for(src, t.file_name@)
    &&& p.elapsed_millis == elapsed_millis
}

impl CopyTracker {
    /// A fresh tracker: no file has been seen yet.
    pub fn new() -> (t: CopyTracker)
        ensures
            t.last_file@ == Seq::<char>::empty(),
    {
        CopyTracker { last_file: String::new() }
    }
}

/// Publishes one tick: overwrites the shared snapshot with the tick's
/// counters, file name, message, preview candidate and elapsed time, and
/// returns the log line owed for it — present exactly when the file name
/// differs from the previous tick's.
pub fn apply_tick(
    progress: &mut ProgressInfo,
    tracker: &mut CopyTracker,
    src: &str,
    tick: &TickInfo,
    elapsed_millis: u64,
) -> (log: Option<String>)
    ensures
        progress_after_tick(*final(progress), src@, *tick, elapsed_millis),
        final(tracker).last_file@ == tick.file_name@,
        log.deep_view() == (if old(tracker).last_file@ == tick.file_name@ {
            Option::<Seq<char>>::None
        } else {
            Some(copying_message_spec(tick.file_name@))
        }),
{
    progress.total_bytes = tick.total_bytes;
    progress.copied_bytes = tick.copied_bytes;
    progress.file_total_bytes = tick.file_total_bytes;
    progress.file_copied_bytes = tick.file_bytes_copied;
    progress.current_file = tick.file_name.clone();
    progress.message = copying_message(tick.file_name.as_str());
    progress.preview_path = preview_path_for(src, tick.file_name.as_str());
    progress.elapsed_millis = elapsed_millis;
    if tracker.last_file.eq(&tick.file_name) {
        None
    } else {
        tracker.last_file = tick.file_name.clone();
        Some(copying_message(tick.file_name.as_str()))
    }
}

/// The file names of a sequence of ticks.
pub open spec fn tick_names(ticks: Seq<TickInfo>) -> Seq<Seq<char>> {
    ticks.map_values(|t: TickInfo| t.file_name@)
}

/// The file name in flight after `names`, starting from `initial`.
pub open spec fn last_name(names: Seq<Seq<char>>, initial: Seq<char>) -> Seq<char> {
    if names.len() == 0 {
        initial
    } else {
        names.last()
    }
}

/// The log lines owed for a run of ticks whose file names are `names`,
/// when `initial` was the file last seen: one line per name that differs
/// from its predecessor, in order.
pub open spec fn log_lines_for(names: Seq<Seq<char>>, initial: Seq<char>) -> Seq<Seq<char>>
    decreases names.len(),
{
    if names.len() == 0 {
        Seq::<Seq<char>>::empty()
    } else if names.last() == last_name(names.drop_last(), initial) {
        log_lines_for(names.drop_last(), initial)
    } else {
        log_lines_for(names.drop_last(), initial).push(copying_message_spec(names.last()))
    }
}

/// Publishes a run of ticks in order and collects the log lines owed:
/// exactly one per distinct file-name transition, never one per tick.
pub fn run_ticks(
    progress: &mut ProgressInfo,
    tracker: &mut CopyTracker,
    src: &str,
    ticks: &Vec<TickInfo>,
    elapsed_millis: u64,
) -> (logs: Vec<String>)
    ensures
        logs@.map_values(|l: String| l@) == log_lines_for(
            tick_names(ticks@),
            old(tracker).last_file@,
        ),
        final(tracker).last_file@ == last_name(tick_names(ticks@), old(tracker).last_file@),
        ticks@.len() == 0 ==> *final(progress) == *old(progress),
        ticks@.len() > 0 ==> progress_after_tick(
            *final(progress),
            src@,
            ticks@.last(),
            elapsed_millis,
        ),
{
    let mut logs: Vec<String> = Vec::new();
    proof {
        assert(ticks@.take(0) =~= Seq::<TickInfo>::empty());
        assert(tick_names(ticks@.take(0)) =~= Seq::<Seq<char>>::empty());
        assert(logs@.map_values(|l: String| l@) =~= Seq::<Seq<char>>::empty());
    }
    let mut k: usize = 0;
    while k < ticks.len()
        invariant
            k <= ticks@.len(),
            logs@.map_values(|l: String| l@) == log_lines_for(
                tick_names(ticks@.take(k as int)),
                old(tracker).last_file@,
            ),
            tracker.last_file@ == last_name(
                tick_names(ticks@.take(k as int)),
                old(tracker).last_file@,
            ),
            k == 0 ==> *progress == *old(progress),
            k > 0 ==> progress_after_tick(*progress, src@, ticks@[k - 1], elapsed_millis),
        decreases ticks@.len() - k,
    {
        let ghost prev_names = tick_names(ticks@.take(k as int));
        let ghost prev_logs = logs@.map_values(|l: String| l@);
        let log = apply_tick(progress, tracker, src, &ticks[k], elapsed_millis);
        proof {
            assert(ticks@.take(k + 1).drop_last() =~= ticks@.take(k as int));
            assert(tick_names(ticks@.take(k + 1)).drop_last() =~= prev_names);
            assert(tick_names(ticks@.take(k + 1)).last() == ticks@[k as int].file_name@);
        }
        match log {
            Some(line) => {
                logs.push(line);
                proof {
                    assert(logs@.map_values(|l: String| l@) =~= prev_logs.push(
                        copying_message_spec(ticks@[k as int].file_name@),
                    ));
                }
            },
            None => {
                proof {
                    assert(logs@.map_values(|l: String| l@) == prev_logs);
                }
            },
        }
        k = k + 1;
    }
    proof {
        assert(ticks@.take(ticks@.len() as int) =~= ticks@);
    }
    logs
}

/// What the marker file on a volume is called.
pub fn marker_file_name() -> (r: String)
    ensures
        r@ == "ingest.txt"@,
{
    "ingest.txt".to_owned()
}

/// What a successful copy writes into the marker file at the source's
/// root: the destination path, exactly as used.
pub fn marker_content(dest: &str) -> (r: String)
    ensures
        r@ == dest@,
{
    dest.to_owned()
}

/// The log line and status message for a copy about to start.
pub fn starting_message(src: &str) -> (r: String)
    ensures
        r@ == "Starting copy from "@ + src@,
{
    let mut out = "Starting copy from ".to_owned();
    out.append(src);
    out
}

/// The status message while a confirmed copy is running.
pub fn active_message(src: &str) -> (r: String)
    ensures
        r@ == "Copying from "@ + src@ + "..."@,
{
    let mut out = "Copying from ".to_owned();
    out.append(src);
    out.append("...");
    out
}

/// The status message after a copy ran to completion.
pub fn completed_message() -> (r: String)
    ensures
        r@ == "Copy completed"@,
{
    "Copy completed".to_owned()
}

impl CopyError {
    /// Wraps the description of the I/O failure that aborted a copy.
    pub fn new(detail: String) -> (e: CopyError)
        ensures
            e.detail@ == detail@,
    {
        CopyError { detail }
    }

    /// The status message shown for a failed copy.
    pub fn user_message(&self) -> (r: String)
        ensures
            r@ == "Error copying: "@ + self.detail@,
    {
        let mut out = "Error copying: ".to_owned();
        out.append(self.detail.as_str());
        out
    }
}

} // verus!
