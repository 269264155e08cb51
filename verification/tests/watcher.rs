use ingest_core::config::Config;
use ingest_core::queue::CopyRequest;
use ingest_core::queue::PendingQueue;
use ingest_core::text::join_path;
use ingest_core::text::trim;
use ingest_core::watcher::resolve_destination;
use ingest_core::watcher::VolumeObservation;
use ingest_core::watcher::Watcher;

fn strings(items: &[&str]) -> Vec<String> {
    items.iter().map(|s| s.to_string()).collect()
}

fn observe(mount: &str, marker: Option<&str>, file_count: usize) -> VolumeObservation {
    VolumeObservation {
        mount: mount.to_string(),
        marker: marker.map(|m| m.to_string()),
        file_count,
    }
}

#[test]
fn a_known_volume_is_enqueued_exactly_once() {
    let mut w = Watcher::new(Some("/dest".to_string()));

    let current = strings(&["/media/A"]);
    let fresh = w.new_volumes(&current);
    assert_eq!(fresh, strings(&["/media/A"]));
    let obs = vec![observe("/media/A", None, 3)];
    let out = w.finish_cycle(current, &obs);
    assert_eq!(out.requests.len(), 1);
    assert_eq!(out.requests[0].src, "/media/A");

    let current = strings(&["/media/A"]);
    let fresh = w.new_volumes(&current);
    assert!(fresh.is_empty());
    let out = w.finish_cycle(current, &Vec::new());
    assert!(out.requests.is_empty());
    assert!(out.logs.is_empty());

    let current = strings(&["/media/A", "/media/B"]);
    let fresh = w.new_volumes(&current);
    assert_eq!(fresh, strings(&["/media/B"]));
    let obs = vec![observe("/media/B", None, 5)];
    let out = w.finish_cycle(current, &obs);
    assert_eq!(out.requests.len(), 1);
    assert_eq!(out.requests[0].src, "/media/B");
}

#[test]
fn one_cycle_turns_a_fresh_volume_into_one_request() {
    let config = Config::new(Some("/dest".to_string()));
    let mut w = Watcher::new(config.destination);

    let current = strings(&["/media/X"]);
    let fresh = w.new_volumes(&current);
    assert_eq!(fresh, strings(&["/media/X"]));

    let obs: Vec<VolumeObservation> =
        fresh.iter().map(|m| observe(m, None, 12)).collect();
    let out = w.finish_cycle(current, &obs);

    assert_eq!(out.requests.len(), 1);
    assert_eq!(out.requests[0].src, "/media/X");
    assert_eq!(out.requests[0].dest, "/dest");
    assert_eq!(out.requests[0].file_count, 12);
    assert_eq!(out.logs, strings(&["Drive /media/X detected"]));
}

#[test]
fn a_marker_outranks_the_default() {
    let mut w = Watcher::new(Some("/dest".to_string()));
    let current = strings(&["/media/X"]);
    let obs = vec![observe("/media/X", Some(" /card \n"), 2)];
    let out = w.finish_cycle(current, &obs);
    assert_eq!(out.requests.len(), 1);
    assert_eq!(out.requests[0].dest, "/card");
}

#[test]
fn a_blank_marker_falls_back_to_the_default() {
    let mut w = Watcher::new(Some("/dest".to_string()));
    let current = strings(&["/media/X"]);
    let obs = vec![observe("/media/X", Some("  \n"), 2)];
    let out = w.finish_cycle(current, &obs);
    assert_eq!(out.requests.len(), 1);
    assert_eq!(out.requests[0].dest, "/dest");
}

#[test]
fn a_volume_without_any_destination_is_skipped_once() {
    let mut w = Watcher::new(None);
    let current = strings(&["/media/X"]);
    let fresh = w.new_volumes(&current);
    assert_eq!(fresh.len(), 1);
    let obs = vec![observe("/media/X", None, 2)];
    let out = w.finish_cycle(current, &obs);
    assert!(out.requests.is_empty());
    assert!(out.logs.is_empty());

    // The volume still joined the known baseline: it is not re-evaluated.
    let fresh = w.new_volumes(&strings(&["/media/X"]));
    assert!(fresh.is_empty());
}

#[test]
fn an_unplugged_volume_is_forgotten() {
    let mut w = Watcher::new(Some("/dest".to_string()));
    let out = w.finish_cycle(strings(&["/media/A"]), &vec![observe("/media/A", None, 1)]);
    assert_eq!(out.requests.len(), 1);

    // The drive disappears for one cycle.
    let out = w.finish_cycle(Vec::new(), &Vec::new());
    assert!(out.requests.is_empty());

    // Replugging counts as a fresh detection.
    let fresh = w.new_volumes(&strings(&["/media/A"]));
    assert_eq!(fresh, strings(&["/media/A"]));
}

#[test]
fn resolution_prefers_trimmed_marker_contents() {
    let dflt = Some("/dest".to_string());
    assert_eq!(
        resolve_destination(&Some(" /card \n".to_string()), &dflt),
        Some("/card".to_string())
    );
    assert_eq!(resolve_destination(&Some("".to_string()), &dflt), Some("/dest".to_string()));
    assert_eq!(resolve_destination(&None, &dflt), Some("/dest".to_string()));
    assert_eq!(resolve_destination(&None, &None), None);
    assert_eq!(resolve_destination(&Some(" \t".to_string()), &None), None);
}

#[test]
fn marker_contents_round_trip_through_resolution() {
    // What a successful copy writes for destination `/dest` is read back
    // verbatim and resolves to `/dest` again, whatever the default.
    let written = ingest_core::engine::marker_content("/dest");
    assert_eq!(written, "/dest");
    assert_eq!(
        resolve_destination(&Some(written), &Some("/other".to_string())),
        Some("/dest".to_string())
    );
}

#[test]
fn trimming_strips_surrounding_whitespace_only() {
    assert_eq!(trim(" \t/card one \n"), "/card one");
    assert_eq!(trim(""), "");
    assert_eq!(trim("   "), "");
    assert_eq!(trim("x"), "x");
}

#[test]
fn joining_inserts_a_single_separator() {
    assert_eq!(join_path("/media/X", "a.png"), "/media/X/a.png");
    assert_eq!(join_path("/media/X/", "a.png"), "/media/X/a.png");
    assert_eq!(join_path("", "a.png"), "a.png");
}

#[test]
fn the_queue_keeps_order_and_removes_by_index() {
    let mut q = PendingQueue::new();
    assert!(q.is_empty());
    q.push(CopyRequest::new("/media/A".to_string(), "/dest".to_string(), 1));
    q.push(CopyRequest::new("/media/B".to_string(), "/dest".to_string(), 2));
    q.push(CopyRequest::new("/media/C".to_string(), "/dest".to_string(), 3));
    assert_eq!(q.len(), 3);
    assert_eq!(q.get(1).src, "/media/B");

    let removed = q.remove(1);
    assert_eq!(removed.src, "/media/B");
    assert_eq!(q.len(), 2);
    assert_eq!(q.get(0).src, "/media/A");
    assert_eq!(q.get(1).src, "/media/C");
}

#[test]
fn the_selection_falls_back_to_the_first_entry() {
    let mut q = PendingQueue::new();
    q.push(CopyRequest::new("/media/A".to_string(), "/dest".to_string(), 1));
    q.push(CopyRequest::new("/media/B".to_string(), "/dest".to_string(), 2));
    assert_eq!(q.normalized_selection(1), 1);
    assert_eq!(q.normalized_selection(2), 0);
    assert_eq!(q.normalized_selection(usize::MAX), 0);
}

#[test]
fn an_unset_config_has_no_destination() {
    let c = Config::default();
    assert_eq!(c.destination, None);
    let c = Config::new(Some("/dest".to_string()));
    assert_eq!(c.destination, Some("/dest".to_string()));
}
