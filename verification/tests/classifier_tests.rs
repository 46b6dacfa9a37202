use file_orchestrator::classifier::{FileClassifier, FileInfo, FileType};
use file_orchestrator::error::OrchestratorError;

#[test]
fn test_classify_by_extension() {
    let test_cases = vec![
        ("test.jpg", FileType::Image),
        ("test.mp4", FileType::Video),
        ("test.mp3", FileType::Audio),
        ("test.pdf", FileType::Document),
        ("test.zip", FileType::Archive),
        ("test.unknown", FileType::Unknown),
    ];

    for (filename, expected) in test_cases {
        let result = FileClassifier::classify_by_extension(filename).unwrap();
        assert_eq!(result, expected, "Failed for {}", filename);
    }
}

#[test]
fn classify_by_extension_ignores_case() {
    assert_eq!(FileClassifier::classify_by_extension("/a/PHOTO.JPG"), Ok(FileType::Image));
    assert_eq!(FileClassifier::classify_by_extension("Clip.MkV"), Ok(FileType::Video));
}

#[test]
fn classify_by_extension_takes_the_last_extension() {
    assert_eq!(FileClassifier::classify_by_extension("backup.tar.gz"), Ok(FileType::Archive));
    assert_eq!(FileClassifier::classify_by_extension("/dir.zip/notes.txt"), Ok(FileType::Document));
}

#[test]
fn classify_by_extension_refuses_a_name_without_extension() {
    let expected = Err(OrchestratorError::Classification("No file extension".to_string()));
    assert_eq!(FileClassifier::classify_by_extension("README"), expected);
    assert_eq!(FileClassifier::classify_by_extension("/home/user/.bashrc"), expected);
    assert_eq!(FileClassifier::classify_by_extension("/dir.d/file"), expected);
    assert_eq!(FileClassifier::classify_by_extension(".."), expected);
    assert_eq!(FileClassifier::classify_by_extension(""), expected);
}

#[test]
fn classify_extension_knows_every_listed_extension() {
    for ext in ["jpg", "jpeg", "png", "gif", "bmp", "webp", "svg", "ico", "tiff", "tif"] {
        assert_eq!(FileClassifier::classify_extension(ext), FileType::Image);
    }
    for ext in ["mp4", "avi", "mov", "mkv", "flv", "wmv", "webm", "m4v", "mpg", "mpeg"] {
        assert_eq!(FileClassifier::classify_extension(ext), FileType::Video);
    }
    for ext in ["mp3", "wav", "flac", "aac", "ogg", "m4a", "wma", "opus", "alac"] {
        assert_eq!(FileClassifier::classify_extension(ext), FileType::Audio);
    }
    for ext in ["pdf", "doc", "docx", "txt", "rtf", "odt", "xlsx", "xls", "pptx", "ppt"] {
        assert_eq!(FileClassifier::classify_extension(ext), FileType::Document);
    }
    for ext in ["zip", "rar", "7z", "tar", "gz", "bz2", "xz", "iso"] {
        assert_eq!(FileClassifier::classify_extension(ext), FileType::Archive);
    }
    assert_eq!(FileClassifier::classify_extension("JPG"), FileType::Unknown);
    assert_eq!(FileClassifier::classify_extension(""), FileType::Unknown);
}

#[test]
fn file_type_names_its_category() {
    assert_eq!(FileType::Image.as_str(), "images");
    assert_eq!(FileType::Video.as_str(), "videos");
    assert_eq!(FileType::Audio.as_str(), "music");
    assert_eq!(FileType::Document.as_str(), "documents");
    assert_eq!(FileType::Archive.as_str(), "archives");
    assert_eq!(FileType::Unknown.as_str(), "unknown");
}

#[test]
fn classify_mime_by_family_and_keyword() {
    assert_eq!(FileClassifier::classify_mime("image/jpeg"), Some(FileType::Image));
    assert_eq!(FileClassifier::classify_mime("video/mp4"), Some(FileType::Video));
    assert_eq!(FileClassifier::classify_mime("audio/mpeg"), Some(FileType::Audio));
    assert_eq!(FileClassifier::classify_mime("application/pdf"), Some(FileType::Document));
    assert_eq!(FileClassifier::classify_mime("application/msword"), Some(FileType::Document));
    assert_eq!(
        FileClassifier::classify_mime("application/vnd.oasis.opendocument.text"),
        Some(FileType::Document)
    );
    assert_eq!(FileClassifier::classify_mime("application/zip"), Some(FileType::Archive));
    assert_eq!(FileClassifier::classify_mime("application/vnd.rar"), Some(FileType::Archive));
    assert_eq!(FileClassifier::classify_mime("application/x-compressed"), Some(FileType::Archive));
    assert_eq!(FileClassifier::classify_mime("application/wasm"), None);
    assert_eq!(FileClassifier::classify_mime(""), None);
    // The family must stand at the start.
    assert_eq!(FileClassifier::classify_mime("x-image/none"), None);
}

#[test]
fn classify_sniffed_prefers_the_media_type() {
    assert_eq!(
        FileClassifier::classify_sniffed(Some("image/png"), "clip.mp4"),
        Ok(FileType::Image)
    );
    assert_eq!(
        FileClassifier::classify_sniffed(Some("application/wasm"), "clip.mp4"),
        Ok(FileType::Video)
    );
    assert_eq!(FileClassifier::classify_sniffed(None, "song.mp3"), Ok(FileType::Audio));
    assert_eq!(
        FileClassifier::classify_sniffed(None, "noext"),
        Err(OrchestratorError::Classification("No file extension".to_string()))
    );
}

#[test]
fn classify_by_content_reads_the_leading_bytes() {
    let jpeg = [0xFFu8, 0xD8, 0xFF, 0xE0, 0x00, 0x10, 0x4A, 0x46, 0x49, 0x46];
    // The bytes win over a misleading name, and serve where the name tells nothing.
    assert_eq!(FileClassifier::classify_by_content(&jpeg, "holiday.txt"), Ok(FileType::Image));
    assert_eq!(FileClassifier::classify_by_content(&jpeg, "holiday"), Ok(FileType::Image));
    let png = [0x89u8, 0x50, 0x4E, 0x47, 0x0D, 0x0A, 0x1A, 0x0A];
    assert_eq!(FileClassifier::classify_by_content(&png, "x"), Ok(FileType::Image));
    let pdf = b"%PDF-1.7\n";
    assert_eq!(FileClassifier::classify_by_content(pdf, "x"), Ok(FileType::Document));
}

#[test]
fn classify_by_content_falls_back_to_the_extension() {
    let plain = b"just some words";
    assert_eq!(FileClassifier::classify_by_content(plain, "notes.txt"), Ok(FileType::Document));
    assert_eq!(FileClassifier::classify_by_content(&[], "a.mp3"), Ok(FileType::Audio));
    assert_eq!(
        FileClassifier::classify_by_content(plain, "notes"),
        Err(OrchestratorError::Classification("No file extension".to_string()))
    );
}

#[test]
fn classify_by_content_agrees_with_infer_on_the_first_8192_bytes() {
    let mut data = vec![0u8; 20000];
    data[0] = 0xFF;
    data[1] = 0xD8;
    data[2] = 0xFF;
    let direct = infer::get(&data[..8192]).map(|t| t.mime_type().to_string());
    assert_eq!(direct, Some("image/jpeg".to_string()));
    assert_eq!(FileClassifier::classify_by_content(&data, "blob"), Ok(FileType::Image));
}

#[test]
fn get_file_info_gathers_size_kind_and_extension() {
    let jpeg = [0xFFu8, 0xD8, 0xFF, 0xE0, 0x00];
    let info = FileClassifier::get_file_info("/source/Photo.JPG", &jpeg);
    assert_eq!(
        info,
        FileInfo {
            path: "/source/Photo.JPG".to_string(),
            size: 5,
            file_type: FileType::Image,
            extension: Some("jpg".to_string()),
        }
    );
    let info = FileClassifier::get_file_info("/source/mystery", b"abc");
    assert_eq!(info.file_type, FileType::Unknown);
    assert_eq!(info.size, 3);
    assert_eq!(info.extension, None);
    let info = FileClassifier::get_file_info("/source/data.bin", b"");
    assert_eq!(info.file_type, FileType::Unknown);
    assert_eq!(info.size, 0);
    assert_eq!(info.extension, Some("bin".to_string()));
}
