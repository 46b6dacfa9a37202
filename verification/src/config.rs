//! The configuration: the source directory, the extensions of each category,
//! and the drives, each registered under an identifier for one category.

use vstd::prelude::*;
use crate::error::{ErrorView, OrchestratorError};
use crate::text::{concat, lowercase, str_eq, to_lowercase};

verus! {

/// The directory whose files are routed.
#[derive(Debug, PartialEq, Eq)]
pub struct SourceConfig {
    pub path: String,
}

/// The extensions, in lower case, that make a file one of each category.
#[derive(Debug, PartialEq, Eq)]
pub struct FileRules {
    pub images: Vec<String>,
    pub videos: Vec<String>,
    pub music: Vec<String>,
    pub documents: Option<Vec<String>>,
    pub archives: Option<Vec<String>>,
}

/// A drive as it is registered: its label, the category it takes, and where
/// it is mounted if that is fixed.
#[derive(Debug, PartialEq, Eq)]
pub struct DriveConfig {
    pub label: String,
    pub target: String,
    pub path: Option<String>,
    pub last_seen: Option<String>,
}

/// The configuration. Each entry of `drives` is a drive's identifier and the
/// drive; the entries stand in the order in which they were registered.
#[derive(Debug, PartialEq, Eq)]
pub struct Config {
    pub source: SourceConfig,
    pub rules: FileRules,
    pub drives: Vec<(String, DriveConfig)>,
}

/// The texts of a vector as sequences of characters, in order.
pub open spec fn strings(v: Seq<String>) -> Seq<Seq<char>> {
    v.map_values(|s: String| s@)
}

/// An optional text as an optional sequence of characters.
pub open spec fn opt_string(o: Option<String>) -> Option<Seq<char>> {
    match o {
        Some(s) => Some(s@),
        None => None,
    }
}

/// An optional vector of texts as an optional sequence.
pub open spec fn opt_strings(o: Option<Vec<String>>) -> Option<Seq<Seq<char>>> {
    match o {
        Some(v) => Some(strings(v@)),
        None => None,
    }
}

/// `FileRules` as a mathematical value.
pub struct FileRulesView {
    pub images: Seq<Seq<char>>,
    pub videos: Seq<Seq<char>>,
    pub music: Seq<Seq<char>>,
    pub documents: Option<Seq<Seq<char>>>,
    pub archives: Option<Seq<Seq<char>>>,
}

impl View for FileRules {
    type V = FileRulesView;

    open spec fn view(&self) -> FileRulesView {
        FileRulesView {
            images: strings(self.images@),
            videos: strings(self.videos@),
            music: strings(self.music@),
            documents: opt_strings(self.documents),
            archives: opt_strings(self.archives),
        }
    }
}

/// A `DriveConfig` as a mathematical value.
pub struct DriveConfigView {
    pub label: Seq<char>,
    pub target: Seq<char>,
    pub path: Option<Seq<char>>,
    pub last_seen: Option<Seq<char>>,
}

impl View for DriveConfig {
    type V = DriveConfigView;

    open spec fn view(&self) -> DriveConfigView {
        DriveConfigView {
            label: self.label@,
            target: self.target@,
            path: opt_string(self.path),
            last_seen: opt_string(self.last_seen),
        }
    }
}

impl Clone for DriveConfig {
    fn clone(&self) -> (r: DriveConfig)
        ensures
            r@ == self@,
    {
        DriveConfig {
            label: self.label.clone(),
            target: self.target.clone(),
            path: match &self.path {
                Some(p) => Some(p.clone()),
                None => None,
            },
            last_seen: match &self.last_seen {
                Some(p) => Some(p.clone()),
                None => None,
            },
        }
    }
}

/// A registered drive with its identifier, as a mathematical value.
pub struct RouteView {
    pub uuid: Seq<char>,
    pub drive: DriveConfigView,
}

/// The registered drives of a vector as mathematical values, in order.
pub open spec fn routes(v: Seq<(String, DriveConfig)>) -> Seq<RouteView> {
    v.map_values(|e: (String, DriveConfig)| RouteView { uuid: e.0@, drive: e.1@ })
}

/// The identifiers of the registered drives, in order.
pub open spec fn route_ids(routes: Seq<RouteView>) -> Seq<Seq<char>> {
    routes.map_values(|r: RouteView| r.uuid)
}

/// The first registered drive that takes the category `category`.
pub open spec fn find_route(routes: Seq<RouteView>, category: Seq<char>) -> Option<RouteView>
    decreases routes.len(),
{
    if routes.len() == 0 {
        None
    } else if routes[0].drive.target == category {
        Some(routes[0])
    } else {
        find_route(routes.drop_first(), category)
    }
}

/// The category whose extensions hold `extension`; the categories are asked
/// in the order images, videos, music, documents, archives.
pub open spec fn category_of(rules: FileRulesView, extension: Seq<char>) -> Option<Seq<char>> {
    if rules.images.contains(extension) {
        Some("images"@)
    } else if rules.videos.contains(extension) {
        Some("videos"@)
    } else if rules.music.contains(extension) {
        Some("music"@)
    } else if rules.documents is Some && rules.documents->0.contains(extension) {
        Some("documents"@)
    } else if rules.archives is Some && rules.archives->0.contains(extension) {
        Some("archives"@)
    } else {
        None
    }
}

/// The categories for which a drive can be registered.
pub open spec fn valid_category(category: Seq<char>) -> bool {
    ||| category == "images"@
    ||| category == "videos"@
    ||| category == "music"@
    ||| category == "documents"@
    ||| category == "archives"@
}

/// The routes after a drive was registered under `uuid`: it replaces the
/// drive of that identifier where there is one, and is added at the end
/// otherwise.
pub open spec fn put_route(routes: Seq<RouteView>, uuid: Seq<char>, drive: DriveConfigView) -> Seq<
    RouteView,
> {
    if route_ids(routes).contains(uuid) {
        routes.update(
            choose|i: int| 0 <= i < routes.len() && route_ids(routes)[i] == uuid,
            RouteView { uuid, drive },
        )
    } else {
        routes.push(RouteView { uuid, drive })
    }
}

/// The extensions and drives of the configuration that `default_config`
/// makes.
pub open spec fn default_rules() -> FileRulesView {
    FileRulesView {
        images: seq!["jpg"@, "jpeg"@, "png"@, "gif"@, "bmp"@, "webp"@, "svg"@],
        videos: seq!["mp4"@, "avi"@, "mov"@, "mkv"@, "flv"@, "wmv"@, "webm"@],
        music: seq!["mp3"@, "wav"@, "flac"@, "aac"@, "ogg"@, "m4a"@, "wma"@],
        documents: Some(seq!["pdf"@, "doc"@, "docx"@, "txt"@, "xlsx"@, "pptx"@]),
        archives: Some(seq!["zip"@, "rar"@, "7z"@, "tar"@, "gz"@]),
    }
}

/// A drive without a fixed mount point that was never seen.
pub open spec fn unseen_drive(label: Seq<char>, target: Seq<char>) -> DriveConfigView {
    DriveConfigView { label, target, path: None, last_seen: None }
}

/// The drives of the configuration that `default_config` makes.
pub open spec fn default_routes() -> Seq<RouteView> {
    seq![
        RouteView { uuid: "example-uuid-1"@, drive: unseen_drive("ImageUSB"@, "images"@) },
        RouteView { uuid: "example-uuid-2"@, drive: unseen_drive("VideoUSB"@, "videos"@) },
        RouteView { uuid: "example-uuid-3"@, drive: unseen_drive("MusicUSB"@, "music"@) },
    ]
}

/// Whether `list` holds the text `s`.
fn list_contains(list: &Vec<String>, s: &str) -> (r: bool)
    ensures
        r == strings(list@).contains(s@),
{
    let n: usize = list.len();
    let mut i: usize = 0;
    while i < n
        invariant
            n == list@.len(),
            i <= n,
            forall|j: int| 0 <= j < i ==> strings(list@)[j] != s@,
        decreases n - i,
    {
        if str_eq(list[i].as_str(), s) {
            assert(strings(list@)[i as int] == s@);
            return true;
        }
        i += 1;
    }
    false
}

/// A drive without a fixed mount point that was never seen.
fn unseen(label: &str, target: &str) -> (d: DriveConfig)
    ensures
        d@ == unseen_drive(label@, target@),
{
    DriveConfig { label: label.to_owned(), target: target.to_owned(), path: None, last_seen: None }
}

impl FileRules {
    /// The category whose extensions hold `extension`, which is compared
    /// as it stands.
    pub fn category_for(&self, extension: &str) -> (r: Option<String>)
        ensures
            opt_string(r) == category_of(self@, extension@),
    {
        if list_contains(&self.images, extension) {
            return Some("images".to_owned());
        }
        if list_contains(&self.videos, extension) {
            return Some("videos".to_owned());
        }
        if list_contains(&self.music, extension) {
            return Some("music".to_owned());
        }
        match &self.documents {
            Some(docs) => {
                if list_contains(docs, extension) {
                    return Some("documents".to_owned());
                }
            },
            None => {},
        }
        match &self.archives {
            Some(archives) => {
                if list_contains(archives, extension) {
                    return Some("archives".to_owned());
                }
            },
            None => {},
        }
        None
    }
}

impl Config {
    /// The registered drives as mathematical values, in order.
    pub open spec fn routes(&self) -> Seq<RouteView> {
        routes(self.drives@)
    }

    /// No identifier is registered twice.
    pub open spec fn wf(&self) -> bool {
        route_ids(self.routes()).no_duplicates()
    }

    /// Whether the configuration can be used: the source directory exists,
    /// which the caller has looked up, and a drive is registered.
    pub fn validate(&self, source_exists: bool) -> (r: Result<(), OrchestratorError>)
        ensures
            match r {
                Ok(_) => source_exists && self.drives@.len() > 0,
                Err(e) => if !source_exists {
                    e@ == ErrorView::Config("Source path does not exist: "@ + self.source.path@)
                } else {
                    self.drives@.len() == 0 && e@ == ErrorView::Config("No drives configured"@)
                },
            },
    {
        if !source_exists {
            return Err(
                OrchestratorError::Config(
                    concat("Source path does not exist: ", self.source.path.as_str()),
                ),
            );
        }
        if self.drives.len() == 0 {
            return Err(OrchestratorError::Config("No drives configured".to_owned()));
        }
        Ok(())
    }

    /// A configuration to start from: the source directory `D:/MainStorage`,
    /// the usual extensions of the five categories, and three drives, for
    /// images, videos and music.
    pub fn default_config() -> (c: Config)
        ensures
            c.wf(),
            c.source.path@ == "D:/MainStorage"@,
            c.rules@ == default_rules(),
            c.routes() == default_routes(),
    {
        let mut images: Vec<String> = Vec::new();
        images.push("jpg".to_owned());
        images.push("jpeg".to_owned());
        images.push("png".to_owned());
        images.push("gif".to_owned());
        images.push("bmp".to_owned());
        images.push("webp".to_owned());
        images.push("svg".to_owned());
        assert(strings(images@) =~= default_rules().images);
        let mut videos: Vec<String> = Vec::new();
        videos.push("mp4".to_owned());
        videos.push("avi".to_owned());
        videos.push("mov".to_owned());
        videos.push("mkv".to_owned());
        videos.push("flv".to_owned());
        videos.push("wmv".to_owned());
        videos.push("webm".to_owned());
        assert(strings(videos@) =~= default_rules().videos);
        let mut music: Vec<String> = Vec::new();
        music.push("mp3".to_owned());
        music.push("wav".to_owned());
        music.push("flac".to_owned());
        music.push("aac".to_owned());
        music.push("ogg".to_owned());
        music.push("m4a".to_owned());
        music.push("wma".to_owned());
        assert(strings(music@) =~= default_rules().music);
        let mut documents: Vec<String> = Vec::new();
        documents.push("pdf".to_owned());
        documents.push("doc".to_owned());
        documents.push("docx".to_owned());
        documents.push("txt".to_owned());
        documents.push("xlsx".to_owned());
        documents.push("pptx".to_owned());
        assert(strings(documents@) =~= default_rules().documents->0);
        let mut archives: Vec<String> = Vec::new();
        archives.push("zip".to_owned());
        archives.push("rar".to_owned());
        archives.push("7z".to_owned());
        archives.push("tar".to_owned());
        archives.push("gz".to_owned());
        assert(strings(archives@) =~= default_rules().archives->0);
        let mut drives: Vec<(String, DriveConfig)> = Vec::new();
        drives.push(("example-uuid-1".to_owned(), unseen("ImageUSB", "images")));
        drives.push(("example-uuid-2".to_owned(), unseen("VideoUSB", "videos")));
        drives.push(("example-uuid-3".to_owned(), unseen("MusicUSB", "music")));
        assert(routes(drives@) =~= default_routes());
        proof {
            reveal_strlit("example-uuid-1");
            reveal_strlit("example-uuid-2");
            reveal_strlit("example-uuid-3");
            let ids = route_ids(default_routes());
            assert(ids[0][13] == '1' && ids[1][13] == '2' && ids[2][13] == '3');
        }
        Config {
            source: SourceConfig { path: "D:/MainStorage".to_owned() },
            rules: FileRules {
                images,
                videos,
                music,
                documents: Some(documents),
                archives: Some(archives),
            },
            drives,
        }
    }

    /// The category of files with the extension `extension`, case ignored.
    pub fn get_file_category(&self, extension: &str) -> (r: Option<String>)
        ensures
            opt_string(r) == category_of(self.rules@, lowercase(extension@)),
    {
        let ext = to_lowercase(extension);
        self.rules.category_for(ext.as_str())
    }

    /// The first registered drive that takes the category `category`, with
    /// its identifier.
    pub fn find_drive_for_category(&self, category: &str) -> (r: Option<(&String, &DriveConfig)>)
        ensures
            match r {
                Some(e) => find_route(self.routes(), category@) == Some(
                    RouteView { uuid: e.0@, drive: e.1@ },
                ),
                None => find_route(self.routes(), category@) is None,
            },
    {
        let n: usize = self.drives.len();
        let mut i: usize = 0;
        assert(self.routes().subrange(0, n as int) =~= self.routes());
        while i < n
            invariant
                n == self.drives@.len(),
                i <= n,
                find_route(self.routes(), category@) == find_route(
                    self.routes().subrange(i as int, n as int),
                    category@,
                ),
            decreases n - i,
        {
            let ghost rest = self.routes().subrange(i as int, n as int);
            assert(rest[0] == self.routes()[i as int]);
            assert(rest.drop_first() =~= self.routes().subrange(i + 1, n as int));
            let entry = &self.drives[i];
            if str_eq(entry.1.target.as_str(), category) {
                return Some((&entry.0, &entry.1));
            }
            i += 1;
        }
        None
    }

    /// Whether a drive can be registered for `category`.
    pub fn is_valid_category(category: &str) -> (r: bool)
        ensures
            r == valid_category(category@),
    {
        str_eq(category, "images") || str_eq(category, "videos") || str_eq(category, "music")
            || str_eq(category, "documents") || str_eq(category, "archives")
    }

    /// Registers `drive` under `uuid`: it replaces the drive of that
    /// identifier where there is one.
    pub fn register_drive(&mut self, uuid: String, drive: DriveConfig)
        requires
            old(self).wf(),
        ensures
            final(self).wf(),
            final(self).routes() == put_route(old(self).routes(), uuid@, drive@),
            final(self).source == old(self).source,
            final(self).rules == old(self).rules,
    {
        let ghost ids = route_ids(self.routes());
        let ghost entry = RouteView { uuid: uuid@, drive: drive@ };
        let n: usize = self.drives.len();
        let mut i: usize = 0;
        while i < n
            invariant
                n == self.drives@.len(),
                i <= n,
                *self == *old(self),
                ids == route_ids(self.routes()),
                ids.no_duplicates(),
                entry == (RouteView { uuid: uuid@, drive: drive@ }),
                forall|j: int| 0 <= j < i ==> ids[j] != uuid@,
            decreases n - i,
        {
            if str_eq(self.drives[i].0.as_str(), uuid.as_str()) {
                proof {
                    assert(ids[i as int] == uuid@);
                    let w = choose|w: int| 0 <= w < ids.len() && ids[w] == uuid@;
                    assert(w == i);
                }
                let ghost pair = (uuid, drive);
                self.drives.set(i, (uuid, drive));
                assert(self.drives@ == old(self).drives@.update(i as int, pair));
                assert(self.routes() =~= old(self).routes().update(i as int, entry));
                assert(route_ids(self.routes()) =~= ids);
                return ;
            }
            i += 1;
        }
        self.drives.push((uuid, drive));
        assert(self.routes() =~= old(self).routes().push(entry));
        assert(route_ids(self.routes()) =~= ids.push(entry.uuid));
    }
}

} // verus!
