//! The kind of a file, told from its leading bytes or, failing that, from
//! the extension of its name.

use vstd::prelude::*;
use crate::config::opt_string;
use crate::error::{ErrorView, OrchestratorError};
use crate::text::{
    contains, extension, extension_of, is_substring, lowercase, starts_with, str_eq,
    to_lowercase,
};

verus! {

/// The kinds of file that are told apart.
#[derive(Debug, Clone, Copy, PartialEq, Eq, Structural)]
pub enum FileType {
    Image,
    Video,
    Audio,
    Document,
    Archive,
    Unknown,
}

impl FileType {
    /// The name of the kind's category, as a sequence of characters.
    pub open spec fn category(&self) -> Seq<char> {
        match *self {
            FileType::Image => "images"@,
            FileType::Video => "videos"@,
            FileType::Audio => "music"@,
            FileType::Document => "documents"@,
            FileType::Archive => "archives"@,
            FileType::Unknown => "unknown"@,
        }
    }

    /// The name of the kind's category.
    pub fn as_str(&self) -> (s: &'static str)
        ensures
            s@ == self.category(),
    {
        match self {
            FileType::Image => "images",
            FileType::Video => "videos",
            FileType::Audio => "music",
            FileType::Document => "documents",
            FileType::Archive => "archives",
            FileType::Unknown => "unknown",
        }
    }
}

/// What is known of a file before it is routed.
#[derive(Debug, PartialEq, Eq)]
pub struct FileInfo {
    pub path: String,
    pub size: u64,
    pub file_type: FileType,
    pub extension: Option<String>,
}

/// The kind of a file whose extension, in lower case, is `ext`.
pub open spec fn extension_type(ext: Seq<char>) -> FileType {
    if ext == "jpg"@ || ext == "jpeg"@ || ext == "png"@ || ext == "gif"@ || ext == "bmp"@ || ext
        == "webp"@ || ext == "svg"@ || ext == "ico"@ || ext == "tiff"@ || ext == "tif"@ {
        FileType::Image
    } else if ext == "mp4"@ || ext == "avi"@ || ext == "mov"@ || ext == "mkv"@ || ext == "flv"@
        || ext == "wmv"@ || ext == "webm"@ || ext == "m4v"@ || ext == "mpg"@ || ext == "mpeg"@ {
        FileType::Video
    } else if ext == "mp3"@ || ext == "wav"@ || ext == "flac"@ || ext == "aac"@ || ext == "ogg"@
        || ext == "m4a"@ || ext == "wma"@ || ext == "opus"@ || ext == "alac"@ {
        FileType::Audio
    } else if ext == "pdf"@ || ext == "doc"@ || ext == "docx"@ || ext == "txt"@ || ext == "rtf"@
        || ext == "odt"@ || ext == "xlsx"@ || ext == "xls"@ || ext == "pptx"@ || ext == "ppt"@ {
        FileType::Document
    } else if ext == "zip"@ || ext == "rar"@ || ext == "7z"@ || ext == "tar"@ || ext == "gz"@
        || ext == "bz2"@ || ext == "xz"@ || ext == "iso"@ {
        FileType::Archive
    } else {
        FileType::Unknown
    }
}

/// The kind that the extension of `path` gives, where it has one.
pub open spec fn extension_class(path: Seq<char>) -> Option<FileType> {
    match extension_of(path) {
        Some(e) => Some(extension_type(lowercase(e))),
        None => None,
    }
}

/// The kind that a media type gives, where it gives one. The families
/// `image/`, `video/` and `audio/` come first, then what reads as a
/// document, then what reads as an archive.
pub open spec fn mime_class(mime: Seq<char>) -> Option<FileType> {
    if "image/"@.is_prefix_of(mime) {
        Some(FileType::Image)
    } else if "video/"@.is_prefix_of(mime) {
        Some(FileType::Video)
    } else if "audio/"@.is_prefix_of(mime) {
        Some(FileType::Audio)
    } else if mime == "application/pdf"@ || is_substring(mime, "word"@) || is_substring(
        mime,
        "document"@,
    ) || is_substring(mime, "text"@) {
        Some(FileType::Document)
    } else if is_substring(mime, "zip"@) || is_substring(mime, "rar"@) || is_substring(
        mime,
        "archive"@,
    ) || is_substring(mime, "compressed"@) {
        Some(FileType::Archive)
    } else {
        None
    }
}

/// The media type that `infer::get` tells from the leading bytes of a file,
/// where it knows them.
pub uninterp spec fn sniffed_mime(head: Seq<u8>) -> Option<Seq<char>>;

/// The bytes that are looked at to tell a file's media type: the first
/// 8192, or all where the file is shorter.
pub open spec fn head_of(data: Seq<u8>) -> Seq<u8> {
    data.subrange(
        0,
        if data.len() < 8192 {
            data.len() as int
        } else {
            8192
        },
    )
}

/// The kind of a file at `path` whose leading bytes give the media type
/// `mime`: what the media type gives, else what the extension gives.
pub open spec fn classify(mime: Option<Seq<char>>, path: Seq<char>) -> Option<FileType> {
    match mime {
        Some(m) => match mime_class(m) {
            Some(t) => Some(t),
            None => extension_class(path),
        },
        None => extension_class(path),
    }
}

/// The media type that is told from the bytes `data` of a file: what
/// `infer::get` tells from their head where addresses are 64 bits wide. On a
/// narrower machine the bytes are not asked, and tell nothing.
pub open spec fn sniffed(data: Seq<u8>) -> Option<Seq<char>> {
    if usize::BITS == 64 {
        sniffed_mime(head_of(data))
    } else {
        None
    }
}

/// The kind of a file at `path` that holds the bytes `data`; `Unknown`
/// where neither its bytes nor its name tell.
pub open spec fn file_type_of(path: Seq<char>, data: Seq<u8>) -> FileType {
    match classify(sniffed(data), path) {
        Some(t) => t,
        None => FileType::Unknown,
    }
}

/// Calls `infer::get` on the bytes and takes the media type of what it
/// finds. Trusted: where addresses are 64 bits wide the call returns, and
/// the result is a function of the bytes alone; nothing is claimed about
/// which bytes give which media type. On a narrower machine the call adds
/// lengths that it reads from the bytes and can fail on them, so it is not
/// made there.
#[verifier::external_body]
fn sniff_mime(head: &[u8]) -> (r: Option<String>)
    requires
        usize::BITS == 64,
    ensures
        opt_string(r) == sniffed_mime(head@),
{
    match infer::get(head) {
        Some(kind) => Some(kind.mime_type().to_string()),
        None => None,
    }
}

/// Tells the kind of a file.
pub struct FileClassifier;

impl FileClassifier {
    /// The kind of a file whose extension, in lower case, is `ext`.
    pub fn classify_extension(ext: &str) -> (t: FileType)
        ensures
            t == extension_type(ext@),
    {
        if str_eq(ext, "jpg") || str_eq(ext, "jpeg") || str_eq(ext, "png") || str_eq(ext, "gif")
            || str_eq(ext, "bmp") || str_eq(ext, "webp") || str_eq(ext, "svg") || str_eq(
            ext,
            "ico",
        ) || str_eq(ext, "tiff") || str_eq(ext, "tif") {
            FileType::Image
        } else if str_eq(ext, "mp4") || str_eq(ext, "avi") || str_eq(ext, "mov") || str_eq(
            ext,
            "mkv",
        ) || str_eq(ext, "flv") || str_eq(ext, "wmv") || str_eq(ext, "webm") || str_eq(
            ext,
            "m4v",
        ) || str_eq(ext, "mpg") || str_eq(ext, "mpeg") {
            FileType::Video
        } else if str_eq(ext, "mp3") || str_eq(ext, "wav") || str_eq(ext, "flac") || str_eq(
            ext,
            "aac",
        ) || str_eq(ext, "ogg") || str_eq(ext, "m4a") || str_eq(ext, "wma") || str_eq(
            ext,
            "opus",
        ) || str_eq(ext, "alac") {
            FileType::Audio
        } else if str_eq(ext, "pdf") || str_eq(ext, "doc") || str_eq(ext, "docx") || str_eq(
            ext,
            "txt",
        ) || str_eq(ext, "rtf") || str_eq(ext, "odt") || str_eq(ext, "xlsx") || str_eq(
            ext,
            "xls",
        ) || str_eq(ext, "pptx") || str_eq(ext, "ppt") {
            FileType::Document
        } else if str_eq(ext, "zip") || str_eq(ext, "rar") || str_eq(ext, "7z") || str_eq(
            ext,
            "tar",
        ) || str_eq(ext, "gz") || str_eq(ext, "bz2") || str_eq(ext, "xz") || str_eq(ext, "iso") {
            FileType::Archive
        } else {
            FileType::Unknown
        }
    }

    /// The kind that a media type gives, where it gives one.
    pub fn classify_mime(mime: &str) -> (r: Option<FileType>)
        ensures
            r == mime_class(mime@),
    {
        if starts_with(mime, "image/") {
            Some(FileType::Image)
        } else if starts_with(mime, "video/") {
            Some(FileType::Video)
        } else if starts_with(mime, "audio/") {
            Some(FileType::Audio)
        } else if str_eq(mime, "application/pdf") || contains(mime, "word") || contains(
            mime,
            "document",
        ) || contains(mime, "text") {
            Some(FileType::Document)
        } else if contains(mime, "zip") || contains(mime, "rar") || contains(mime, "archive")
            || contains(mime, "compressed") {
            Some(FileType::Archive)
        } else {
            None
        }
    }

    /// The kind of the file at `path` by the extension of its name, case
    /// ignored. A name without an extension is refused.
    pub fn classify_by_extension(path: &str) -> (r: Result<FileType, OrchestratorError>)
        ensures
            match r {
                Ok(t) => extension_class(path@) == Some(t),
                Err(e) => extension_class(path@) is None && e@ == ErrorView::Classification(
                    "No file extension"@,
                ),
            },
    {
        match extension(path) {
            Some(e) => {
                let lower = to_lowercase(e.as_str());
                Ok(Self::classify_extension(lower.as_str()))
            },
            None => Err(OrchestratorError::Classification("No file extension".to_owned())),
        }
    }

    /// The kind of the file at `path` whose leading bytes gave the media
    /// type `mime`, or gave none: what the media type gives, else what the
    /// extension gives. A file of which neither tells is refused.
    pub fn classify_sniffed(mime: Option<&str>, path: &str) -> (r: Result<
        FileType,
        OrchestratorError,
    >)
        ensures
            match r {
                Ok(t) => classify(
                    match mime {
                        Some(m) => Some(m@),
                        None => None,
                    },
                    path@,
                ) == Some(t),
                Err(e) => classify(
                    match mime {
                        Some(m) => Some(m@),
                        None => None,
                    },
                    path@,
                ) is None && e@ == ErrorView::Classification("No file extension"@),
            },
    {
        match mime {
            Some(m) => match Self::classify_mime(m) {
                Some(t) => Ok(t),
                None => Self::classify_by_extension(path),
            },
            None => Self::classify_by_extension(path),
        }
    }

    /// The kind of the file at `path` that holds the bytes `data`, told from
    /// its first 8192 bytes or, failing that, from its extension. The bytes
    /// are asked only where addresses are 64 bits wide; elsewhere the
    /// extension alone tells.
    pub fn classify_by_content(data: &[u8], path: &str) -> (r: Result<
        FileType,
        OrchestratorError,
    >)
        ensures
            match r {
                Ok(t) => classify(sniffed(data@), path@) == Some(t),
                Err(e) => classify(sniffed(data@), path@) is None && e@
                    == ErrorView::Classification("No file extension"@),
            },
    {
        if usize::BITS != 64 {
            return Self::classify_sniffed(None, path);
        }
        let n: usize = if data.len() < 8192 {
            data.len()
        } else {
            8192
        };
        let head = vstd::slice::slice_subrange(data, 0, n);
        match sniff_mime(head) {
            Some(m) => Self::classify_sniffed(Some(m.as_str()), path),
            None => Self::classify_sniffed(None, path),
        }
    }

    /// What is known of the file at `path` that holds the bytes `data`: its
    /// size, its kind (`Unknown` where nothing tells), and its extension in
    /// lower case.
    pub fn get_file_info(path: &str, data: &[u8]) -> (info: FileInfo)
        ensures
            info.path@ == path@,
            info.size == data@.len(),
            info.file_type == file_type_of(path@, data@),
            opt_string(info.extension) == match extension_of(path@) {
                Some(e) => Some(lowercase(e)),
                None => None,
            },
    {
        let file_type = match Self::classify_by_content(data, path) {
            Ok(t) => t,
            Err(_) => FileType::Unknown,
        };
        let ext = match extension(path) {
            Some(e) => Some(to_lowercase(e.as_str())),
            None => None,
        };
        FileInfo { path: path.to_owned(), size: data.len() as u64, file_type, extension: ext }
    }
}

} // verus!
