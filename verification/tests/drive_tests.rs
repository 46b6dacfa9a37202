use file_orchestrator::config::DriveConfig;
use file_orchestrator::drive::{DriveDetector, DriveInfo};
use file_orchestrator::summary::{OutcomeKind, SyncSummary};
use file_orchestrator::sync::{route_mount, target_path};
use file_orchestrator::watcher::{convert_event, ChangeKind, FileEvent};

fn a_drive(name: &str, mount: &str, removable: bool) -> DriveInfo {
    DriveInfo {
        name: name.to_string(),
        mount_point: mount.to_string(),
        total_space: 1000000000,
        available_space: 500000000,
        file_system: "NTFS".to_string(),
        is_removable: removable,
    }
}

fn three_drives() -> DriveDetector {
    DriveDetector::new(vec![
        a_drive("System", "/", false),
        a_drive("My ImageUSB", "/mnt/usb1", true),
        a_drive("imageusb-2", "/mnt/usb2", true),
    ])
}

#[test]
fn get_all_drives_lists_in_order() {
    let d = three_drives();
    assert_eq!(
        d.get_all_drives(),
        vec![
            a_drive("System", "/", false),
            a_drive("My ImageUSB", "/mnt/usb1", true),
            a_drive("imageusb-2", "/mnt/usb2", true),
        ]
    );
    assert!(DriveDetector::new(Vec::new()).get_all_drives().is_empty());
}

#[test]
fn refresh_replaces_the_listing() {
    let mut d = three_drives();
    d.refresh(vec![a_drive("Only", "/only", true)]);
    assert_eq!(d.get_all_drives(), vec![a_drive("Only", "/only", true)]);
    assert!(!d.is_drive_connected("/mnt/usb1"));
}

#[test]
fn get_removable_drives_filters() {
    let d = three_drives();
    assert_eq!(
        d.get_removable_drives(),
        vec![a_drive("My ImageUSB", "/mnt/usb1", true), a_drive("imageusb-2", "/mnt/usb2", true)]
    );
}

#[test]
fn is_drive_connected_wants_the_exact_mount_point() {
    let d = three_drives();
    assert!(d.is_drive_connected("/mnt/usb1"));
    assert!(d.is_drive_connected("/"));
    assert!(!d.is_drive_connected("/mnt/usb"));
    assert!(!d.is_drive_connected("/mnt/usb1/"));
    assert!(!d.is_drive_connected("/MNT/USB1"));
    assert!(!DriveDetector::new(Vec::new()).is_drive_connected("/"));
}

#[test]
fn find_drive_by_label_takes_the_first_match_ignoring_case() {
    let d = three_drives();
    assert_eq!(d.find_drive_by_label("IMAGEUSB"), Some(a_drive("My ImageUSB", "/mnt/usb1", true)));
    assert_eq!(d.find_drive_by_label("usb-2"), Some(a_drive("imageusb-2", "/mnt/usb2", true)));
    assert_eq!(d.find_drive_by_label("video"), None);
    // The label is looked for in the name, not in the mount point.
    assert_eq!(d.find_drive_by_label("mnt"), None);
    // The empty label is in every name.
    assert_eq!(d.find_drive_by_label(""), Some(a_drive("System", "/", false)));
}

#[test]
fn get_drive_for_path_takes_the_first_drive_above() {
    let d = three_drives();
    assert_eq!(d.get_drive_for_path("/mnt/usb1/x.jpg"), Some(a_drive("System", "/", false)));
    let d = DriveDetector::new(vec![
        a_drive("A", "/mnt/usb1", true),
        a_drive("B", "/mnt/usb2", true),
    ]);
    assert_eq!(d.get_drive_for_path("/mnt/usb2/x.jpg"), Some(a_drive("B", "/mnt/usb2", true)));
    assert_eq!(d.get_drive_for_path("/mnt/usb22/x.jpg"), None);
    assert_eq!(d.get_drive_for_path("/home/x.jpg"), None);
}

#[test]
fn new_drives_since_lists_new_mount_points() {
    let earlier = DriveDetector::new(vec![a_drive("System", "/", false)]);
    let later = three_drives();
    assert_eq!(
        later.new_drives_since(&earlier),
        vec![a_drive("My ImageUSB", "/mnt/usb1", true), a_drive("imageusb-2", "/mnt/usb2", true)]
    );
    assert!(earlier.new_drives_since(&later).is_empty());
    assert!(later.new_drives_since(&later).is_empty());
}

#[test]
fn route_mount_by_fixed_path_or_label() {
    let d = three_drives();
    let fixed = DriveConfig {
        label: "no such label".to_string(),
        target: "images".to_string(),
        path: Some("/mnt/usb2".to_string()),
        last_seen: None,
    };
    assert_eq!(route_mount(&fixed, &d), Some("/mnt/usb2".to_string()));
    let fixed_absent = DriveConfig {
        label: "ImageUSB".to_string(),
        target: "images".to_string(),
        path: Some("/mnt/usb9".to_string()),
        last_seen: None,
    };
    // A fixed mount point is not made up for by a matching label.
    assert_eq!(route_mount(&fixed_absent, &d), None);
    let labelled = DriveConfig {
        label: "imageUSB".to_string(),
        target: "images".to_string(),
        path: None,
        last_seen: None,
    };
    assert_eq!(route_mount(&labelled, &d), Some("/mnt/usb1".to_string()));
    let unknown = DriveConfig {
        label: "VideoUSB".to_string(),
        target: "videos".to_string(),
        path: None,
        last_seen: None,
    };
    assert_eq!(route_mount(&unknown, &d), None);
}

#[test]
fn target_path_is_mount_category_relative_path() {
    assert_eq!(
        target_path("/mnt/usb1", "images", "/source/photo.jpg", "/source"),
        "/mnt/usb1/images/photo.jpg"
    );
    assert_eq!(
        target_path("/mnt/usb1/", "images", "/source/2024/trip/photo.jpg", "/source/"),
        "/mnt/usb1/images/2024/trip/photo.jpg"
    );
    // A file that is not under the source directory keeps its whole path.
    assert_eq!(
        target_path("/mnt/usb1", "videos", "/elsewhere/clip.mp4", "/source"),
        "/mnt/usb1/videos/elsewhere/clip.mp4"
    );
}

#[test]
fn summary_total_adds_the_five_counts() {
    let s = SyncSummary { synced: 1, pending: 2, already_synced: 3, skipped: 4, failed: 5 };
    assert_eq!(s.total(), 15);
    assert_eq!(SyncSummary::default().total(), 0);
    assert_eq!(
        SyncSummary::default(),
        SyncSummary { synced: 0, pending: 0, already_synced: 0, skipped: 0, failed: 0 }
    );
}

#[test]
fn summary_record_counts_under_the_kind() {
    let mut s = SyncSummary::default();
    s.record(OutcomeKind::Synced);
    s.record(OutcomeKind::Failed);
    s.record(OutcomeKind::Failed);
    s.record(OutcomeKind::Pending);
    s.record(OutcomeKind::AlreadySynced);
    s.record(OutcomeKind::Skipped);
    assert_eq!(
        s,
        SyncSummary { synced: 1, pending: 1, already_synced: 1, skipped: 1, failed: 2 }
    );
    assert_eq!(s.total(), 6);
}

#[test]
fn summary_tally_accounts_for_every_file() {
    let kinds = vec![
        OutcomeKind::Synced,
        OutcomeKind::Skipped,
        OutcomeKind::Synced,
        OutcomeKind::Failed,
        OutcomeKind::Pending,
        OutcomeKind::AlreadySynced,
        OutcomeKind::Synced,
    ];
    let s = SyncSummary::tally(&kinds);
    assert_eq!(
        s,
        SyncSummary { synced: 3, pending: 1, already_synced: 1, skipped: 1, failed: 1 }
    );
    assert_eq!(s.total(), kinds.len());
    assert_eq!(SyncSummary::tally(&Vec::new()).total(), 0);
}

#[test]
fn convert_event_keeps_file_changes() {
    let paths = vec!["/source/a.jpg".to_string(), "/source/b.jpg".to_string()];
    assert_eq!(
        convert_event(ChangeKind::Create, &paths, false),
        Some(FileEvent::Created("/source/a.jpg".to_string()))
    );
    assert_eq!(
        convert_event(ChangeKind::Modify, &paths, false),
        Some(FileEvent::Modified("/source/a.jpg".to_string()))
    );
    assert_eq!(
        convert_event(ChangeKind::Remove, &paths, false),
        Some(FileEvent::Removed("/source/a.jpg".to_string()))
    );
    assert_eq!(convert_event(ChangeKind::Other, &paths, false), None);
    assert_eq!(convert_event(ChangeKind::Create, &paths, true), None);
    assert_eq!(convert_event(ChangeKind::Create, &Vec::new(), false), None);
}

#[test]
fn file_event_tells_path_and_whether_to_sync() {
    let created = FileEvent::Created("/a".to_string());
    let modified = FileEvent::Modified("/b".to_string());
    let removed = FileEvent::Removed("/c".to_string());
    assert_eq!(created.path(), "/a");
    assert_eq!(modified.path(), "/b");
    assert_eq!(removed.path(), "/c");
    assert!(created.wants_sync());
    assert!(modified.wants_sync());
    assert!(!removed.wants_sync());
    assert_eq!(created.clone(), created);
}
