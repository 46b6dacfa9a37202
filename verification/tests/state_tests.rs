use file_orchestrator::record::{FileState, PendingSync};
use file_orchestrator::state::{CategoryCount, StateManager, SyncStats};

fn file_record(path: &str, hash: &str, size: u64, category: &str) -> FileState {
    FileState {
        source_path: path.to_string(),
        hash: hash.to_string(),
        size,
        last_synced: 100,
        target_drive: "D1".to_string(),
        target_path: format!("/mnt/usb1/{}{}", category, path),
        file_category: category.to_string(),
    }
}

fn pending_record(path: &str, drive: &str) -> PendingSync {
    PendingSync {
        source_path: path.to_string(),
        file_category: "images".to_string(),
        target_drive: drive.to_string(),
        hash: "h".to_string(),
        size: 7,
        created_at: 50,
    }
}

#[test]
fn keys_are_prefix_and_path() {
    assert_eq!(StateManager::file_key("/source/photo.jpg"), "file:/source/photo.jpg");
    assert_eq!(StateManager::pending_key("/source/photo.jpg"), "pending:/source/photo.jpg");
    assert_eq!(StateManager::file_key(""), "file:");
}

#[test]
fn new_table_is_empty() {
    let table = StateManager::new();
    assert!(table.get_all_file_states().is_empty());
    assert!(table.get_all_pending_syncs().is_empty());
    assert_eq!(table.get_file_state("/a"), None);
    assert_eq!(table.get_pending_sync("/a"), None);
    assert!(!table.is_file_synced("/a", "h"));
}

#[test]
fn save_file_state_is_an_upsert() {
    let mut table = StateManager::new();
    table.save_file_state(&file_record("/a", "h1", 1, "images"));
    table.save_file_state(&file_record("/b", "h2", 2, "videos"));
    table.save_file_state(&file_record("/a", "h3", 3, "images"));
    assert_eq!(
        table.get_all_file_states(),
        vec![file_record("/a", "h3", 3, "images"), file_record("/b", "h2", 2, "videos")]
    );
    assert_eq!(table.get_file_state("/a"), Some(file_record("/a", "h3", 3, "images")));
    assert_eq!(table.get_file_state("/b"), Some(file_record("/b", "h2", 2, "videos")));
    assert_eq!(table.get_file_state("/c"), None);
    // Storing the same record again changes nothing.
    table.save_file_state(&file_record("/a", "h3", 3, "images"));
    assert_eq!(table.get_all_file_states().len(), 2);
}

#[test]
fn is_file_synced_compares_the_hash() {
    let mut table = StateManager::new();
    table.save_file_state(&file_record("/a", "h1", 1, "images"));
    assert!(table.is_file_synced("/a", "h1"));
    assert!(!table.is_file_synced("/a", "h2"));
    assert!(!table.is_file_synced("/b", "h1"));
}

#[test]
fn remove_file_state_is_a_no_op_when_absent() {
    let mut table = StateManager::new();
    table.save_file_state(&file_record("/a", "h1", 1, "images"));
    table.save_file_state(&file_record("/b", "h2", 2, "videos"));
    table.remove_file_state("/zzz");
    assert_eq!(table.get_all_file_states().len(), 2);
    table.remove_file_state("/a");
    assert_eq!(table.get_all_file_states(), vec![file_record("/b", "h2", 2, "videos")]);
    table.remove_file_state("/a");
    assert_eq!(table.get_all_file_states().len(), 1);
}

#[test]
fn add_pending_sync_is_an_upsert() {
    let mut table = StateManager::new();
    table.add_pending_sync(&pending_record("/a", "D1"));
    table.add_pending_sync(&pending_record("/a", "D1"));
    table.add_pending_sync(&pending_record("/b", "D2"));
    table.add_pending_sync(&pending_record("/a", "D2"));
    assert_eq!(
        table.get_all_pending_syncs(),
        vec![pending_record("/a", "D2"), pending_record("/b", "D2")]
    );
    assert_eq!(table.get_pending_sync("/a"), Some(pending_record("/a", "D2")));
    assert!(table.get_all_file_states().is_empty());
}

#[test]
fn get_pending_syncs_filters_by_drive() {
    let mut table = StateManager::new();
    table.add_pending_sync(&pending_record("/a", "D1"));
    table.add_pending_sync(&pending_record("/b", "D2"));
    table.add_pending_sync(&pending_record("/c", "D1"));
    assert_eq!(
        table.get_pending_syncs("D1"),
        vec![pending_record("/a", "D1"), pending_record("/c", "D1")]
    );
    assert_eq!(table.get_pending_syncs("D2"), vec![pending_record("/b", "D2")]);
    assert!(table.get_pending_syncs("D3").is_empty());
}

#[test]
fn remove_pending_sync_is_a_no_op_when_absent() {
    let mut table = StateManager::new();
    table.add_pending_sync(&pending_record("/a", "D1"));
    table.remove_pending_sync("/b");
    assert_eq!(table.get_all_pending_syncs().len(), 1);
    table.remove_pending_sync("/a");
    assert!(table.get_all_pending_syncs().is_empty());
    table.remove_pending_sync("/a");
    assert!(table.get_all_pending_syncs().is_empty());
}

#[test]
fn records_of_the_two_kinds_do_not_touch() {
    let mut table = StateManager::new();
    table.save_file_state(&file_record("/a", "h1", 1, "images"));
    table.add_pending_sync(&pending_record("/a", "D1"));
    table.remove_pending_sync("/a");
    assert_eq!(table.get_file_state("/a"), Some(file_record("/a", "h1", 1, "images")));
    table.add_pending_sync(&pending_record("/a", "D1"));
    table.remove_file_state("/a");
    assert_eq!(table.get_pending_sync("/a"), Some(pending_record("/a", "D1")));
}

#[test]
fn get_sync_stats_counts_and_adds_up() {
    let mut table = StateManager::new();
    assert_eq!(
        table.get_sync_stats(),
        SyncStats { total_files: 0, total_size: 0, pending_syncs: 0, by_category: vec![] }
    );
    table.save_file_state(&file_record("/a", "h1", 10, "images"));
    table.save_file_state(&file_record("/b", "h2", 20, "videos"));
    table.save_file_state(&file_record("/c", "h3", 30, "images"));
    table.add_pending_sync(&pending_record("/d", "D1"));
    table.add_pending_sync(&pending_record("/e", "D2"));
    assert_eq!(
        table.get_sync_stats(),
        SyncStats {
            total_files: 3,
            total_size: 60,
            pending_syncs: 2,
            by_category: vec![
                CategoryCount { category: "images".to_string(), count: 2 },
                CategoryCount { category: "videos".to_string(), count: 1 },
            ],
        }
    );
}

#[test]
fn get_sync_stats_stops_at_the_largest_size() {
    let mut table = StateManager::new();
    table.save_file_state(&file_record("/a", "h1", u64::MAX - 1, "images"));
    table.save_file_state(&file_record("/b", "h2", 1, "images"));
    assert_eq!(table.get_sync_stats().total_size, u64::MAX);
    table.save_file_state(&file_record("/c", "h3", 5, "images"));
    assert_eq!(table.get_sync_stats().total_size, u64::MAX);
    assert_eq!(table.get_sync_stats().total_files, 3);
}

#[test]
fn clear_all_removes_every_record() {
    let mut table = StateManager::new();
    table.save_file_state(&file_record("/a", "h1", 10, "images"));
    table.add_pending_sync(&pending_record("/d", "D1"));
    table.clear_all();
    assert!(table.get_all_file_states().is_empty());
    assert!(table.get_all_pending_syncs().is_empty());
    assert_eq!(table.get_sync_stats().total_files, 0);
}

#[test]
fn from_scan_passes_over_what_could_not_be_read() {
    let files = vec![
        Some(file_record("/a", "h1", 1, "images")),
        None,
        Some(file_record("/b", "h2", 2, "videos")),
        Some(file_record("/a", "h9", 9, "images")),
        None,
    ];
    let pending = vec![None, Some(pending_record("/c", "D1"))];
    let (table, skipped) = StateManager::from_scan(files, pending);
    assert_eq!(skipped, 3);
    assert_eq!(
        table.get_all_file_states(),
        vec![file_record("/a", "h9", 9, "images"), file_record("/b", "h2", 2, "videos")]
    );
    assert_eq!(table.get_all_pending_syncs(), vec![pending_record("/c", "D1")]);
    let (empty, none_skipped) = StateManager::from_scan(Vec::new(), Vec::new());
    assert_eq!(none_skipped, 0);
    assert!(empty.get_all_file_states().is_empty());
}
