use ingest_core::engine::active_message;
use ingest_core::engine::apply_tick;
use ingest_core::engine::completed_message;
use ingest_core::engine::copying_message;
use ingest_core::engine::marker_content;
use ingest_core::engine::marker_file_name;
use ingest_core::engine::preview_path_for;
use ingest_core::engine::run_ticks;
use ingest_core::engine::starting_message;
use ingest_core::engine::CopyError;
use ingest_core::engine::CopyTracker;
use ingest_core::engine::TickInfo;
use ingest_core::progress::ProgressInfo;

fn tick(total: u64, copied: u64, file_total: u64, file_copied: u64, name: &str) -> TickInfo {
    TickInfo {
        total_bytes: total,
        copied_bytes: copied,
        file_total_bytes: file_total,
        file_bytes_copied: file_copied,
        file_name: name.to_string(),
    }
}

#[test]
fn a_tick_publishes_its_counters() {
    let mut p = ProgressInfo::new();
    let mut t = CopyTracker::new();
    let log = apply_tick(&mut p, &mut t, "/media/X", &tick(100, 40, 10, 4, "a.txt"), 2000);
    assert_eq!(p.total_bytes, 100);
    assert_eq!(p.copied_bytes, 40);
    assert_eq!(p.file_total_bytes, 10);
    assert_eq!(p.file_copied_bytes, 4);
    assert_eq!(p.current_file, "a.txt");
    assert_eq!(p.message, "Copying a.txt");
    assert_eq!(p.elapsed_millis, 2000);
    assert_eq!(log, Some("Copying a.txt".to_string()));
}

#[test]
fn an_image_tick_sets_the_preview() {
    let mut p = ProgressInfo::new();
    let mut t = CopyTracker::new();
    apply_tick(&mut p, &mut t, "/media/X", &tick(1, 1, 1, 1, "photo.JPG"), 0);
    assert_eq!(p.preview_path, Some("/media/X/photo.JPG".to_string()));
}

#[test]
fn a_video_tick_clears_the_preview() {
    let mut p = ProgressInfo::new();
    let mut t = CopyTracker::new();
    apply_tick(&mut p, &mut t, "/media/X", &tick(2, 1, 1, 1, "photo.JPG"), 0);
    assert!(p.preview_path.is_some());
    apply_tick(&mut p, &mut t, "/media/X", &tick(2, 2, 1, 1, "clip.mp4"), 0);
    assert_eq!(p.preview_path, None);
}

#[test]
fn preview_recognizes_extensions_without_case() {
    assert_eq!(
        preview_path_for("/m", "a.png"),
        Some("/m/a.png".to_string())
    );
    assert_eq!(
        preview_path_for("/m", "a.PNG"),
        Some("/m/a.PNG".to_string())
    );
    assert_eq!(
        preview_path_for("/m", "a.JpEg"),
        Some("/m/a.JpEg".to_string())
    );
    assert_eq!(
        preview_path_for("/m/", "a.jpg"),
        Some("/m/a.jpg".to_string())
    );
    assert_eq!(preview_path_for("/m", "a.txt"), None);
    assert_eq!(preview_path_for("/m", "noext"), None);
    assert_eq!(preview_path_for("/m", ".hidden"), None);
    assert_eq!(preview_path_for("/m", "a."), None);
    assert_eq!(preview_path_for("/m", "a.pngx"), None);
}

#[test]
fn one_log_line_per_distinct_file() {
    let mut p = ProgressInfo::new();
    let mut t = CopyTracker::new();
    let ticks = vec![
        tick(40, 5, 20, 5, "a.txt"),
        tick(40, 20, 20, 20, "a.txt"),
        tick(40, 25, 20, 5, "b.txt"),
        tick(40, 40, 20, 20, "b.txt"),
    ];
    let logs = run_ticks(&mut p, &mut t, "/media/X", &ticks, 100);
    assert_eq!(
        logs,
        vec!["Copying a.txt".to_string(), "Copying b.txt".to_string()]
    );
    assert_eq!(t.last_file, "b.txt");
    assert_eq!(p.copied_bytes, 40);
    assert_eq!(p.current_file, "b.txt");
}

#[test]
fn no_ticks_append_no_log_lines() {
    let mut p = ProgressInfo::new();
    let mut t = CopyTracker::new();
    let logs = run_ticks(&mut p, &mut t, "/media/X", &Vec::new(), 100);
    assert!(logs.is_empty());
    assert_eq!(p.message, "Waiting for drive...");
}

#[test]
fn repeated_ticks_log_only_once() {
    let mut p = ProgressInfo::new();
    let mut t = CopyTracker::new();
    let ticks = vec![
        tick(9, 1, 9, 1, "a.txt"),
        tick(9, 5, 9, 5, "a.txt"),
        tick(9, 9, 9, 9, "a.txt"),
    ];
    let logs = run_ticks(&mut p, &mut t, "/m", &ticks, 7);
    assert_eq!(logs, vec!["Copying a.txt".to_string()]);
}

#[test]
fn marker_holds_the_destination_exactly() {
    assert_eq!(marker_file_name(), "ingest.txt");
    assert_eq!(marker_content("/srv/ingest"), "/srv/ingest");
}

#[test]
fn lifecycle_messages_are_fixed() {
    assert_eq!(copying_message("a.txt"), "Copying a.txt");
    assert_eq!(starting_message("/media/X"), "Starting copy from /media/X");
    assert_eq!(active_message("/media/X"), "Copying from /media/X...");
    assert_eq!(completed_message(), "Copy completed");
}

#[test]
fn a_copy_error_carries_its_cause() {
    let e = CopyError::new("device vanished".to_string());
    assert_eq!(e.detail, "device vanished");
    assert_eq!(e.user_message(), "Error copying: device vanished");
}
