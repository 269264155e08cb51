use ingest_core::devices::contains_pattern;
use ingest_core::devices::device_line_name;
use ingest_core::devices::indicates_card_reader;
use ingest_core::devices::mount_failure_message;
use ingest_core::devices::mount_success_message;
use ingest_core::devices::unmounted_device_names;

#[test]
fn a_line_without_a_mount_point_names_a_device() {
    assert_eq!(device_line_name("/dev/sdb1"), Some("/dev/sdb1".to_string()));
    assert_eq!(device_line_name("  /dev/sdb1  "), Some("/dev/sdb1".to_string()));
}

#[test]
fn a_mounted_or_empty_line_names_none() {
    assert_eq!(device_line_name("/dev/sda1 /"), None);
    assert_eq!(device_line_name("/dev/sda2 /media/X"), None);
    assert_eq!(device_line_name(""), None);
    assert_eq!(device_line_name("   "), None);
}

#[test]
fn a_listing_contributes_only_unmounted_devices() {
    let listing = "/dev/sda1 /\n/dev/sdb1\n/dev/sdc1 /media/X\n/dev/sdd1\n";
    assert_eq!(
        unmounted_device_names(listing),
        vec!["/dev/sdb1".to_string(), "/dev/sdd1".to_string()]
    );
    assert_eq!(unmounted_device_names(""), Vec::<String>::new());
    assert_eq!(
        unmounted_device_names("/dev/sde1"),
        vec!["/dev/sde1".to_string()]
    );
}

#[test]
fn pattern_search_ignores_ascii_case_in_the_text() {
    assert!(contains_pattern("USB CardReader device", "cardreader"));
    assert!(contains_pattern("cardreader", "cardreader"));
    assert!(!contains_pattern("card reader", "cardreader"));
    assert!(contains_pattern("ID 05e3:0743 Genesys", "05e3:0743"));
    assert!(!contains_pattern("short", "longer than the text"));
    assert!(contains_pattern("anything", ""));
}

#[test]
fn a_reader_is_recognized_by_id_or_name() {
    assert!(indicates_card_reader("Bus 002 Device 003: ID 05E3:0743"));
    assert!(indicates_card_reader("Super CARDREADER 3000"));
    assert!(!indicates_card_reader("Bus 001 Device 001: root hub"));
}

#[test]
fn mount_attempts_log_their_outcome() {
    assert_eq!(
        mount_success_message("/dev/sdb1", "Mounted at /media/X."),
        "Mounted /dev/sdb1: Mounted at /media/X."
    );
    assert_eq!(mount_failure_message("/dev/sdb1"), "Failed to mount /dev/sdb1");
}
