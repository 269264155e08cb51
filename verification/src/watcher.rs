//! The volume watcher's per-cycle decisions.
//!
//! Each polling cycle the caller enumerates the currently mounted volumes
//! and hands the set here. The watcher diffs it against the set it knew
//! from the previous cycle, and for each newly appeared mount point the
//! caller reads the volume's marker file and counts its files; the watcher
//! then resolves each observation to a destination (marker first, the
//! configured default second), emits one copy request and one detection
//! log line per resolvable volume, and adopts the current set as the new
//! baseline. Volumes that disappeared are simply forgotten, so a replugged
//! drive counts as a fresh detection.

use vstd::prelude::*;

use crate::queue::CopyRequest;
use crate::queue::RequestModel;
use crate::text::is_space_char;
use crate::text::lemma_trimmed_fixed_point;
use crate::text::trim;
use crate::text::trimmed;

verus! {

/// One newly seen volume, as the caller observed it: the mount point, the
/// marker file's contents when one could be read, and the recursive file
/// count of the volume.
pub struct VolumeObservation {
    pub mount: String,
    pub marker: Option<String>,
    pub file_count: usize,
}

/// The mathematical content of a `VolumeObservation`.
pub ghost struct ObservationModel {
    pub mount: Seq<char>,
    pub marker: Option<Seq<char>>,
    pub file_count: nat,
}

impl View for VolumeObservation {
    type V = ObservationModel;

    open spec fn view(&self) -> ObservationModel {
        ObservationModel {
            mount: self.mount@,
            marker: self.marker.deep_view(),
            file_count: self.file_count as nat,
        }
    }
}

/// Membership in a sequence of strings.
pub open spec fn contains_str(s: Seq<Seq<char>>, x: Seq<char>) -> bool {
    exists|i: int| 0 <= i < s.len() && s[i] == x
}

/// No two entries of `s` are equal.
pub open spec fn distinct_strs(s: Seq<Seq<char>>) -> bool {
    forall|i: int, j: int| 0 <= i < j < s.len() ==> s[i] != s[j]
}

/// The mount points of `current` that were not yet known, in `current`'s
/// order.
pub open spec fn new_mounts(known: Seq<Seq<char>>, current: Seq<Seq<char>>) -> Seq<Seq<char>>
    decreases current.len(),
{
    if current.len() == 0 {
        Seq::<Seq<char>>::empty()
    } else if contains_str(known, current.last()) {
        new_mounts(known, current.drop_last())
    } else {
        new_mounts(known, current.drop_last()).push(current.last())
    }
}

/// The destination a volume resolves to: the marker file's contents,
/// trimmed, when they are present and not blank; otherwise the configured
/// default, if any.
pub open spec fn resolved_destination(
    marker: Option<Seq<char>>,
    default: Option<Seq<char>>,
) -> Option<Seq<char>> {
    match marker {
        Some(m) => if trimmed(m).len() > 0 {
            Some(trimmed(m))
        } else {
            default
        },
        None => default,
    }
}

/// The log line and status message for a newly detected volume.
pub open spec fn detected_message_spec(mount: Seq<char>) -> Seq<char> {
    "Drive "@ + mount + " detected"@
}

/// The copy requests owed for a cycle's observations: one per volume
/// whose destination resolves, in order.
pub open spec fn requests_for(
    obs: Seq<ObservationModel>,
    default: Option<Seq<char>>,
) -> Seq<RequestModel>
    decreases obs.len(),
{
    if obs.len() == 0 {
        Seq::<RequestModel>::empty()
    } else {
        let rest = requests_for(obs.drop_last(), default);
        match resolved_destination(obs.last().marker, default) {
            Some(d) => rest.push(
                RequestModel { src: obs.last().mount, dest: d, file_count: obs.last().file_count },
            ),
            None => rest,
        }
    }
}

/// The detection log lines owed for a cycle's observations: one per
/// volume whose destination resolves, in order.
pub open spec fn detections_for(
    obs: Seq<ObservationModel>,
    default: Option<Seq<char>>,
) -> Seq<Seq<char>>
    decreases obs.len(),
{
    if obs.len() == 0 {
        Seq::<Seq<char>>::empty()
    } else {
        let rest = detections_for(obs.drop_last(), default);
        match resolved_destination(obs.last().marker, default) {
            Some(d) => rest.push(detected_message_spec(obs.last().mount)),
            None => rest,
        }
    }
}

/// Builds the detection message for a mount point.
pub fn detected_message(mount: &str) -> (r: String)
    ensures
        r@ == detected_message_spec(mount@),
{
    let mut out = "Drive ".to_owned();
    out.append(mount);
    out.append(" detected");
    out
}

/// Resolves a volume's destination from its marker contents and the
/// configured default.
pub fn resolve_destination(marker: &Option<String>, default: &Option<String>) -> (dest: Option<
    String,
>)
    ensures
        dest.deep_view() == resolved_destination(marker.deep_view(), default.deep_view()),
{
    match marker {
        Some(m) => {
            let t = trim(m.as_str());
            if t.as_str().unicode_len() > 0 {
                Some(t)
            } else {
                match default {
                    Some(d) => Some(d.clone()),
                    None => None,
                }
            }
        },
        None => match default {
            Some(d) => Some(d.clone()),
            None => None,
        },
    }
}

/// What a cycle hands back: the requests to enqueue and the log lines to
/// append, in order. The last log line, when there is one, doubles as the
/// new status message.
pub struct CycleOutput {
    pub requests: Vec<CopyRequest>,
    pub logs: Vec<String>,
}

/// The watcher's own state between cycles: the mount points seen in the
/// previous cycle, and the configured default destination.
pub struct Watcher {
    pub known: Vec<String>,
    pub default_dest: Option<String>,
}

fn known_contains(known: &Vec<String>, x: &String) -> (b: bool)
    ensures
        b == contains_str(known.deep_view(), x@),
{
    let mut i: usize = 0;
    while i < known.len()
        invariant
            i <= known@.len(),
            forall|j: int| 0 <= j < i ==> known.deep_view()[j] != x@,
        decreases known@.len() - i,
    {
        if known[i].eq(x) {
            proof {
                assert(known.deep_view()[i as int] == x@);
            }
            return true;
        }
        proof {
            assert(known.deep_view()[i as int] == known@[i as int]@);
        }
        i = i + 1;
    }
    false
}

impl Watcher {
    /// A watcher that has seen nothing yet.
    pub fn new(default_dest: Option<String>) -> (w: Watcher)
        ensures
            w.known.deep_view() == Seq::<Seq<char>>::empty(),
            w.default_dest.deep_view() == default_dest.deep_view(),
    {
        let w = Watcher { known: Vec::new(), default_dest };
        proof {
            assert(w.known.deep_view() =~= Seq::<Seq<char>>::empty());
        }
        w
    }

    /// The mount points of `current` that the watcher has not seen in the
    /// previous cycle: these are the volumes the caller should observe.
    pub fn new_volumes(&self, current: &Vec<String>) -> (fresh: Vec<String>)
        ensures
            fresh.deep_view() == new_mounts(self.known.deep_view(), current.deep_view()),
    {
        let mut fresh: Vec<String> = Vec::new();
        proof {
            assert(current.deep_view().take(0) =~= Seq::<Seq<char>>::empty());
            assert(fresh.deep_view() =~= Seq::<Seq<char>>::empty());
        }
        let mut i: usize = 0;
        while i < current.len()
            invariant
                i <= current@.len(),
                fresh.deep_view() == new_mounts(
                    self.known.deep_view(),
                    current.deep_view().take(i as int),
                ),
            decreases current@.len() - i,
        {
            let ghost pre = fresh.deep_view();
            let is_known = known_contains(&self.known, &current[i]);
            proof {
                assert(current.deep_view().take(i + 1).drop_last() =~= current.deep_view().take(
                    i as int,
                ));
                assert(current.deep_view().take(i + 1).last() == current@[i as int]@);
            }
            if !is_known {
                fresh.push(current[i].clone());
                proof {
                    assert(fresh.deep_view() =~= pre.push(current@[i as int]@));
                }
            }
            i = i + 1;
        }
        proof {
            assert(current.deep_view().take(current@.len() as int) =~= current.deep_view());
        }
        fresh
    }

    /// Ends a cycle: resolves each observed volume to a destination,
    /// emits one request and one detection line per resolvable one, and
    /// replaces the known set with `current`.
    pub fn finish_cycle(&mut self, current: Vec<String>, observations: &Vec<VolumeObservation>) -> (out:
        CycleOutput)
        ensures
            final(self).known.deep_view() == current.deep_view(),
            final(self).default_dest == old(self).default_dest,
            out.requests@.map_values(|r: CopyRequest| r@) == requests_for(
                observations@.map_values(|o: VolumeObservation| o@),
                old(self).default_dest.deep_view(),
            ),
            out.logs@.map_values(|l: String| l@) == detections_for(
                observations@.map_values(|o: VolumeObservation| o@),
                old(self).default_dest.deep_view(),
            ),
    {
        let ghost obs_models = observations@.map_values(|o: VolumeObservation| o@);
        let ghost default_model = self.default_dest.deep_view();
        let mut requests: Vec<CopyRequest> = Vec::new();
        let mut logs: Vec<String> = Vec::new();
        proof {
            assert(obs_models.take(0) =~= Seq::<ObservationModel>::empty());
            assert(requests@.map_values(|r: CopyRequest| r@) =~= Seq::<RequestModel>::empty());
            assert(logs@.map_values(|l: String| l@) =~= Seq::<Seq<char>>::empty());
        }
        let mut i: usize = 0;
        while i < observations.len()
            invariant
                i <= observations@.len(),
                obs_models == observations@.map_values(|o: VolumeObservation| o@),
                default_model == self.default_dest.deep_view(),
                *self == *old(self),
                requests@.map_values(|r: CopyRequest| r@) == requests_for(
                    obs_models.take(i as int),
                    default_model,
                ),
                logs@.map_values(|l: String| l@) == detections_for(
                    obs_models.take(i as int),
                    default_model,
                ),
            decreases observations@.len() - i,
        {
            let ghost pre_requests = requests@.map_values(|r: CopyRequest| r@);
            let ghost pre_logs = logs@.map_values(|l: String| l@);
            let obs = &observations[i];
            let dest = resolve_destination(&obs.marker, &self.default_dest);
            proof {
                assert(obs_models.take(i + 1).drop_last() =~= obs_models.take(i as int));
                assert(obs_models.take(i + 1).last() == obs_models[i as int]);
                assert(obs_models[i as int] == observations@[i as int]@);
            }
            match dest {
                Some(d) => {
                    let request = CopyRequest::new(obs.mount.clone(), d, obs.file_count);
                    requests.push(request);
                    logs.push(detected_message(obs.mount.as_str()));
                    proof {
                        assert(requests@.map_values(|r: CopyRequest| r@) =~= pre_requests.push(
                            RequestModel {
                                src: obs_models[i as int].mount,
                                dest: resolved_destination(
                                    obs_models[i as int].marker,
                                    default_model,
                                )->Some_0,
                                file_count: obs_models[i as int].file_count,
                            },
                        ));
                        assert(logs@.map_values(|l: String| l@) =~= pre_logs.push(
                            detected_message_spec(obs_models[i as int].mount),
                        ));
                    }
                },
                None => {
                    proof {
                        assert(requests@.map_values(|r: CopyRequest| r@) == pre_requests);
                        assert(logs@.map_values(|l: String| l@) == pre_logs);
                    }
                },
            }
            i = i + 1;
        }
        proof {
            assert(obs_models.take(observations@.len() as int) =~= obs_models);
        }
        self.known = current;
        CycleOutput { requests, logs }
    }
}

proof fn lemma_contains_push(s: Seq<Seq<char>>, x: Seq<char>, m: Seq<char>)
    ensures
        contains_str(s.push(x), m) <==> (contains_str(s, m) || x == m),
{
    if contains_str(s, m) {
        let i = choose|i: int| 0 <= i < s.len() && s[i] == m;
        assert(s.push(x)[i] == m);
    }
    if x == m {
        assert(s.push(x)[s.len() as int] == m);
    }
    if contains_str(s.push(x), m) {
        let i = choose|i: int| 0 <= i < s.push(x).len() && s.push(x)[i] == m;
        if i < s.len() {
            assert(s[i] == m);
        }
    }
}

/// A volume appears among a cycle's fresh detections exactly when it is
/// mounted now and was not known from the previous cycle.
pub proof fn lemma_new_mounts_membership(known: Seq<Seq<char>>, current: Seq<Seq<char>>, m: Seq<char>)
    ensures
        contains_str(new_mounts(known, current), m) <==> (contains_str(current, m)
            && !contains_str(known, m)),
    decreases current.len(),
{
    if current.len() == 0 {
    } else {
        let dl = current.drop_last();
        lemma_new_mounts_membership(known, dl, m);
        assert(current =~= dl.push(current.last()));
        lemma_contains_push(dl, current.last(), m);
        if !contains_str(known, current.last()) {
            lemma_contains_push(new_mounts(known, dl), current.last(), m);
        }
    }
}

/// Round trip of the marker protocol: a successful copy writes the
/// destination path, exactly as used, into the volume's marker file, and
/// a destination that is non-blank and carries no surrounding whitespace
/// resolves back to exactly itself on the next detection of that volume,
/// whatever default is configured.
pub proof fn lemma_marker_round_trip(dest: Seq<char>, default: Option<Seq<char>>)
    requires
        dest.len() > 0,
        !is_space_char(dest[0]),
        !is_space_char(dest[dest.len() - 1]),
    ensures
        resolved_destination(Some(dest), default) == Some(dest),
{
    lemma_trimmed_fixed_point(dest);
}

/// The dedup guarantee across cycles: a mount point already adopted into
/// the known set is never detected again while it stays mounted.
pub proof fn lemma_known_not_redetected(known: Seq<Seq<char>>, current: Seq<Seq<char>>, m: Seq<char>)
    requires
        contains_str(known, m),
    ensures
        !contains_str(new_mounts(known, current), m),
{
    lemma_new_mounts_membership(known, current, m);
}

/// A cycle detects a mount point at most once: when the enumerated set
/// has no duplicates, neither has the fresh-detection sequence.
pub proof fn lemma_new_mounts_distinct(known: Seq<Seq<char>>, current: Seq<Seq<char>>)
    requires
        distinct_strs(current),
    ensures
        distinct_strs(new_mounts(known, current)),
    decreases current.len(),
{
    if current.len() == 0 {
    } else {
        let dl = current.drop_last();
        let last = current.last();
        assert(distinct_strs(dl)) by {
            assert(forall|i: int, j: int|
                0 <= i < j < dl.len() ==> dl[i] == current[i] && dl[j] == current[j]);
        }
        lemma_new_mounts_distinct(known, dl);
        if !contains_str(known, last) {
            let rest = new_mounts(known, dl);
            assert(!contains_str(dl, last)) by {
                if contains_str(dl, last) {
                    let i = choose|i: int| 0 <= i < dl.len() && dl[i] == last;
                    assert(current[i] == current[current.len() - 1]);
                }
            }
            lemma_new_mounts_membership(known, dl, last);
            assert(!contains_str(rest, last));
            assert forall|i: int, j: int|
                0 <= i < j < rest.push(last).len() implies rest.push(last)[i] != rest.push(
                last,
            )[j] by {
                if j < rest.len() {
                } else {
                    assert(rest.push(last)[j] == last);
                    if rest.push(last)[i] == last {
                        assert(rest[i] == last);
                    }
                }
            }
        }
    }
}

} // verus!
