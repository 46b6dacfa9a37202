use file_orchestrator::config::{Config, DriveConfig, FileRules, SourceConfig};
use file_orchestrator::error::OrchestratorError;

fn config_with_drives(drives: Vec<(String, DriveConfig)>) -> Config {
    Config {
        source: SourceConfig { path: "/source".to_string() },
        rules: FileRules {
            images: vec!["jpg".to_string()],
            videos: vec!["mp4".to_string()],
            music: vec!["mp3".to_string()],
            documents: None,
            archives: Some(vec!["zip".to_string(), "jpg".to_string()]),
        },
        drives,
    }
}

fn drive_for(label: &str, target: &str) -> DriveConfig {
    DriveConfig {
        label: label.to_string(),
        target: target.to_string(),
        path: None,
        last_seen: None,
    }
}

#[test]
fn test_get_file_category() {
    let config = Config::default_config();

    assert_eq!(config.get_file_category("jpg"), Some("images".to_string()));
    assert_eq!(config.get_file_category("mp4"), Some("videos".to_string()));
    assert_eq!(config.get_file_category("mp3"), Some("music".to_string()));
    assert_eq!(config.get_file_category("unknown"), None);
}

#[test]
fn get_file_category_ignores_case() {
    let config = Config::default_config();
    assert_eq!(config.get_file_category("JPG"), Some("images".to_string()));
    assert_eq!(config.get_file_category("Pdf"), Some("documents".to_string()));
    assert_eq!(config.get_file_category("ZIP"), Some("archives".to_string()));
}

#[test]
fn category_for_asks_the_categories_in_order() {
    let config = config_with_drives(Vec::new());
    // "jpg" is listed under images and under archives: images come first.
    assert_eq!(config.rules.category_for("jpg"), Some("images".to_string()));
    assert_eq!(config.rules.category_for("zip"), Some("archives".to_string()));
    // No documents are configured.
    assert_eq!(config.rules.category_for("pdf"), None);
    // The extension is compared as it stands.
    assert_eq!(config.rules.category_for("JPG"), None);
}

#[test]
fn default_config_holds_the_usual_rules_and_three_drives() {
    let config = Config::default_config();
    assert_eq!(config.source.path, "D:/MainStorage");
    assert_eq!(config.rules.images, ["jpg", "jpeg", "png", "gif", "bmp", "webp", "svg"]);
    assert_eq!(config.rules.videos, ["mp4", "avi", "mov", "mkv", "flv", "wmv", "webm"]);
    assert_eq!(config.rules.music, ["mp3", "wav", "flac", "aac", "ogg", "m4a", "wma"]);
    assert_eq!(
        config.rules.documents,
        Some(
            ["pdf", "doc", "docx", "txt", "xlsx", "pptx"].iter().map(|s| s.to_string()).collect()
        )
    );
    assert_eq!(
        config.rules.archives,
        Some(["zip", "rar", "7z", "tar", "gz"].iter().map(|s| s.to_string()).collect())
    );
    assert_eq!(
        config.drives,
        vec![
            ("example-uuid-1".to_string(), drive_for("ImageUSB", "images")),
            ("example-uuid-2".to_string(), drive_for("VideoUSB", "videos")),
            ("example-uuid-3".to_string(), drive_for("MusicUSB", "music")),
        ]
    );
}

#[test]
fn find_drive_for_category_takes_the_first_match() {
    let config = config_with_drives(vec![
        ("a".to_string(), drive_for("One", "videos")),
        ("b".to_string(), drive_for("Two", "images")),
        ("c".to_string(), drive_for("Three", "images")),
    ]);
    let found = config.find_drive_for_category("images");
    assert_eq!(found, Some((&"b".to_string(), &drive_for("Two", "images"))));
    let found = config.find_drive_for_category("videos");
    assert_eq!(found, Some((&"a".to_string(), &drive_for("One", "videos"))));
    assert_eq!(config.find_drive_for_category("music"), None);
    assert_eq!(config_with_drives(Vec::new()).find_drive_for_category("images"), None);
}

#[test]
fn validate_asks_for_a_source_and_a_drive() {
    let config = Config::default_config();
    assert_eq!(config.validate(true), Ok(()));
    assert_eq!(
        config.validate(false),
        Err(OrchestratorError::Config("Source path does not exist: D:/MainStorage".to_string()))
    );
    let empty = config_with_drives(Vec::new());
    assert_eq!(
        empty.validate(true),
        Err(OrchestratorError::Config("No drives configured".to_string()))
    );
    // A missing source is reported first.
    assert_eq!(
        empty.validate(false),
        Err(OrchestratorError::Config("Source path does not exist: /source".to_string()))
    );
}

#[test]
fn is_valid_category_knows_the_five_categories() {
    for c in ["images", "videos", "music", "documents", "archives"] {
        assert!(Config::is_valid_category(c));
    }
    assert!(!Config::is_valid_category("unknown"));
    assert!(!Config::is_valid_category("Images"));
    assert!(!Config::is_valid_category(""));
}

#[test]
fn register_drive_adds_or_replaces() {
    let mut config = config_with_drives(vec![("a".to_string(), drive_for("One", "videos"))]);
    config.register_drive("b".to_string(), drive_for("Two", "images"));
    assert_eq!(
        config.drives,
        vec![
            ("a".to_string(), drive_for("One", "videos")),
            ("b".to_string(), drive_for("Two", "images")),
        ]
    );
    config.register_drive("a".to_string(), drive_for("Other", "music"));
    assert_eq!(
        config.drives,
        vec![
            ("a".to_string(), drive_for("Other", "music")),
            ("b".to_string(), drive_for("Two", "images")),
        ]
    );
}
