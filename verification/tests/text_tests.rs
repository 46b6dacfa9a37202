use file_orchestrator::digest::calculate_file_hash;
use file_orchestrator::error::{OrchestratorError, SyncStage};
use file_orchestrator::text;
use file_orchestrator::text::{
    chars_of, contains, contains_ignore_case, extension, is_under, join, last_index,
    normalize_path, relative_to, starts_with, str_eq,
};

#[test]
fn str_eq_compares_characters() {
    assert!(str_eq("abc", "abc"));
    assert!(!str_eq("abc", "abd"));
    assert!(!str_eq("abc", "ab"));
    assert!(str_eq("", ""));
}

#[test]
fn concat_joins_texts() {
    assert_eq!(text::concat("file:", "/a/b"), "file:/a/b");
    assert_eq!(text::concat("", ""), "");
    assert_eq!(text::concat3("a", "/", "b"), "a/b");
}

#[test]
fn chars_of_lists_characters() {
    assert_eq!(chars_of("añ✓"), vec!['a', 'ñ', '✓']);
    assert_eq!(chars_of(""), Vec::<char>::new());
}

#[test]
fn contains_finds_a_run() {
    assert!(contains("application/msword", "word"));
    assert!(contains("abc", ""));
    assert!(contains("", ""));
    assert!(contains("abc", "abc"));
    assert!(contains("aab", "ab"));
    assert!(!contains("abc", "abcd"));
    assert!(!contains("abc", "ac"));
    assert!(!contains("", "a"));
}

#[test]
fn contains_ignore_case_folds_both_sides() {
    assert!(contains_ignore_case("My ImageUSB Stick", "imageusb"));
    assert!(contains_ignore_case("imageusb", "IMAGEUSB"));
    assert!(contains_ignore_case("ÄRGER", "ärger"));
    assert!(!contains_ignore_case("VideoUSB", "imageusb"));
}

#[test]
fn starts_with_checks_the_beginning() {
    assert!(starts_with("image/png", "image/"));
    assert!(starts_with("image/", "image/"));
    assert!(starts_with("x", ""));
    assert!(!starts_with("ximage/png", "image/"));
    assert!(!starts_with("imag", "image/"));
}

#[test]
fn last_index_finds_the_last_occurrence() {
    let chars = chars_of("a.b.c");
    assert_eq!(last_index(&chars, 0, '.'), Some(3));
    assert_eq!(last_index(&chars, 4, '.'), None);
    assert_eq!(last_index(&chars, 3, '.'), Some(3));
    assert_eq!(last_index(&chars, 5, '.'), None);
    assert_eq!(last_index(&chars, 0, 'x'), None);
}

#[test]
fn extension_follows_the_last_dot_of_the_name() {
    assert_eq!(extension("photo.jpg"), Some("jpg".to_string()));
    assert_eq!(extension("/a/b.c/photo.JPG"), Some("JPG".to_string()));
    assert_eq!(extension("a.tar.gz"), Some("gz".to_string()));
    assert_eq!(extension("a."), Some("".to_string()));
    assert_eq!(extension("..."), Some("".to_string()));
    assert_eq!(extension(".hidden.txt"), Some("txt".to_string()));
    assert_eq!(extension(".hidden"), None);
    assert_eq!(extension("/a/b.c/photo"), None);
    assert_eq!(extension(".."), None);
    assert_eq!(extension("/a/.."), None);
    assert_eq!(extension("."), None);
    assert_eq!(extension(""), None);
    assert_eq!(extension("dir.d/"), None);
}

#[test]
fn is_under_wants_a_component_boundary() {
    assert!(is_under("/source/photo.jpg", "/source"));
    assert!(is_under("/source/photo.jpg", "/source/"));
    assert!(is_under("/source", "/source"));
    assert!(!is_under("/sourceX/photo.jpg", "/source"));
    assert!(!is_under("/other/photo.jpg", "/source"));
    assert!(!is_under("/so", "/source"));
    assert!(!is_under("/source/photo.jpg", ""));
}

#[test]
fn relative_to_strips_the_root() {
    assert_eq!(relative_to("/source/photo.jpg", "/source"), "photo.jpg");
    assert_eq!(relative_to("/source/photo.jpg", "/source/"), "photo.jpg");
    assert_eq!(relative_to("/source//a/b.jpg", "/source"), "a/b.jpg");
    assert_eq!(relative_to("/source", "/source"), "");
    assert_eq!(relative_to("/other/photo.jpg", "/source"), "other/photo.jpg");
    assert_eq!(relative_to("photo.jpg", "/source"), "photo.jpg");
    assert_eq!(relative_to("/sourceX/p.jpg", "/source"), "sourceX/p.jpg");
}

#[test]
fn join_puts_one_separator_between() {
    assert_eq!(join("/mnt/usb1", "images"), "/mnt/usb1/images");
    assert_eq!(join("/mnt/usb1/", "images"), "/mnt/usb1/images");
    assert_eq!(join("/mnt/usb1", "/images"), "/mnt/usb1/images");
    assert_eq!(join("/mnt/usb1/", "//images"), "/mnt/usb1/images");
    assert_eq!(join("", "images"), "/images");
    assert_eq!(join("/mnt", ""), "/mnt/");
}

#[test]
fn calculate_file_hash_is_the_blake3_digest() {
    assert_eq!(
        calculate_file_hash(b""),
        "af1349b9f5f9a1a6a0404dea36dcc9499bcb25c9adc112b7cc9a93cae41f3262"
    );
    let data = b"The quick brown fox jumps over the lazy dog";
    assert_eq!(calculate_file_hash(data), blake3::hash(data).to_hex().to_string());
    assert_ne!(calculate_file_hash(b"a"), calculate_file_hash(b"b"));
}

#[test]
fn calculate_file_hash_is_64_hex_digits() {
    for data in [&b""[..], &b"abc"[..], &[0u8; 5000][..]] {
        let hash = calculate_file_hash(data);
        assert_eq!(hash.len(), 64);
        assert!(hash.chars().all(|c| matches!(c, '0'..='9' | 'a'..='f')));
    }
}

#[test]
fn error_messages_name_the_failure() {
    assert_eq!(
        OrchestratorError::Io("/s/a.jpg".to_string(), SyncStage::Copy, "disk full".to_string())
            .message(),
        "Sync error: copy failed for /s/a.jpg: disk full"
    );
    assert_eq!(
        OrchestratorError::Io("/s/a.jpg".to_string(), SyncStage::Hash, "denied".to_string())
            .message(),
        "Sync error: hash failed for /s/a.jpg: denied"
    );
    assert_eq!(
        OrchestratorError::Io("p".to_string(), SyncStage::Inventory, "x".to_string()).message(),
        "Sync error: inventory failed for p: x"
    );
    assert_eq!(
        OrchestratorError::Config("bad".to_string()).message(),
        "Configuration error: bad"
    );
    assert_eq!(
        OrchestratorError::NotFound("/s/a.jpg".to_string()).message(),
        "File does not exist: /s/a.jpg"
    );
    assert_eq!(
        OrchestratorError::NoRoute("images".to_string()).message(),
        "No drive configured for category: images"
    );
    assert_eq!(
        OrchestratorError::Classification("No file extension".to_string()).message(),
        "File classification error: No file extension"
    );
    assert_eq!(SyncStage::Hash.as_str(), "hash");
    assert_eq!(SyncStage::Inventory.as_str(), "inventory");
    assert_eq!(SyncStage::Copy.as_str(), "copy");
}

#[test]
fn normalize_path_unifies_separators_and_folds_case_on_demand() {
    assert_eq!(normalize_path("D:\\Main\\Photo.JPG", false), "D:/Main/Photo.JPG");
    assert_eq!(normalize_path("D:\\Main\\Photo.JPG", true), "d:/main/photo.jpg");
    assert_eq!(normalize_path("/source/Photo.jpg", false), "/source/Photo.jpg");
    assert_eq!(normalize_path("/source/Photo.jpg", true), "/source/photo.jpg");
    assert_eq!(normalize_path("", true), "");
    assert_eq!(normalize_path("\\", false), "/");
    // Normalizing twice changes nothing more.
    let once = normalize_path("A\\b/C", true);
    assert_eq!(normalize_path(&once, true), once);
}
