//! The synchronization engine. It decides, for one file at a time, whether
//! the file is up to date, which drive it goes to, and whether that drive
//! can be reached; it keeps the record table in step with what was decided.
//!
//! The engine does no outside work. Its caller reads the source file, lists
//! the connected drives, reads the clock, and hands in what it found; where
//! the engine decides that a file is to be copied, the caller copies it and
//! hands in how that went.

use vstd::prelude::*;
use crate::classifier::{file_type_of, FileClassifier, FileType};
use crate::config::{find_route, opt_string, Config, DriveConfig, DriveConfigView, RouteView};
use crate::digest::{blake3_hex, calculate_file_hash};
use crate::drive::{find_by_label, mounted_at, DriveDetector, DriveInfoView};
use crate::error::{ErrorView, OrchestratorError, SyncStage};
use crate::record::{
    drop_pending, find_pending, pending_for_drive, pending_views, put_file, put_pending, total_size,
    FileState, FileStateView, PendingSync, PendingSyncView,
};
use crate::state::{counts_by_category, is_synced, StateManager, SyncStats};
use crate::summary::OutcomeKind;
use crate::text::{join, join_path, normalize_path, normalized, relative_path, relative_to};

verus! {

/// What the caller found when it read the source file.
#[derive(Debug, PartialEq, Eq)]
pub enum SourceRead {
    /// No file is at the path.
    Missing,
    /// The file is there and could not be read; holds the cause.
    Unreadable(String),
    /// The bytes of the file.
    Content(Vec<u8>),
}

/// A `SourceRead` as a mathematical value.
pub enum SourceView {
    Missing,
    Unreadable(Seq<char>),
    Content(Seq<u8>),
}

impl View for SourceRead {
    type V = SourceView;

    open spec fn view(&self) -> SourceView {
        match *self {
            SourceRead::Missing => SourceView::Missing,
            SourceRead::Unreadable(cause) => SourceView::Unreadable(cause@),
            SourceRead::Content(data) => SourceView::Content(data@),
        }
    }
}

/// What the caller found when it listed the connected drives.
pub enum InventoryRead {
    /// The drives could not be listed; holds the cause.
    Unavailable(String),
    /// The drives that are connected.
    Drives(DriveDetector),
}

/// An `InventoryRead` as a mathematical value.
pub enum InventoryView {
    Unavailable(Seq<char>),
    Drives(Seq<DriveInfoView>),
}

impl View for InventoryRead {
    type V = InventoryView;

    open spec fn view(&self) -> InventoryView {
        match *self {
            InventoryRead::Unavailable(cause) => InventoryView::Unavailable(cause@),
            InventoryRead::Drives(drives) => InventoryView::Drives(drives@),
        }
    }
}

/// How the copy of a file went.
#[derive(Debug, PartialEq, Eq)]
pub enum CopyOutcome {
    /// The copy failed; holds the cause.
    Failed(String),
    /// The copy is in place; holds the number of bytes that it holds.
    Copied(u64),
}

/// How the synchronization of one file ended.
#[derive(Debug, PartialEq, Eq)]
pub enum SyncResult {
    /// The file was copied; holds the path of the copy.
    Synced(String),
    /// The file waits for its drive; holds the drive's identifier.
    Pending(String),
    /// The file was copied before, with the content it has now.
    AlreadySynced,
    /// The file is not routed; holds the reason.
    Skipped(String),
}

/// The kind under which the end of a file's synchronization is counted.
pub open spec fn kind_of(r: Result<SyncResult, OrchestratorError>) -> OutcomeKind {
    match r {
        Ok(SyncResult::Synced(_)) => OutcomeKind::Synced,
        Ok(SyncResult::Pending(_)) => OutcomeKind::Pending,
        Ok(SyncResult::AlreadySynced) => OutcomeKind::AlreadySynced,
        Ok(SyncResult::Skipped(_)) => OutcomeKind::Skipped,
        Err(_) => OutcomeKind::Failed,
    }
}

/// The kind under which the end of a file's synchronization is counted: a
/// failure counts as failed, and stops nothing.
pub fn outcome_kind(r: &Result<SyncResult, OrchestratorError>) -> (k: OutcomeKind)
    ensures
        k == kind_of(*r),
{
    match r {
        Ok(SyncResult::Synced(_)) => OutcomeKind::Synced,
        Ok(SyncResult::Pending(_)) => OutcomeKind::Pending,
        Ok(SyncResult::AlreadySynced) => OutcomeKind::AlreadySynced,
        Ok(SyncResult::Skipped(_)) => OutcomeKind::Skipped,
        Err(_) => OutcomeKind::Failed,
    }
}

/// A file that is to be copied, with the record that is to be kept once the
/// copy is in place.
#[derive(Debug, PartialEq, Eq)]
pub struct CopyJob {
    pub record: FileState,
}

/// What the engine decided for a file.
#[derive(Debug, PartialEq, Eq)]
pub enum SyncStep {
    /// Nothing is left to do.
    Done(SyncResult),
    /// The caller is to copy the file, and to report how that went.
    Copy(CopyJob),
}

/// What the engine decided for a file that waits for its drive.
#[derive(Debug, PartialEq, Eq)]
pub enum DrainStep {
    /// The source file is gone: its pending record was removed.
    Removed,
    /// The file was taken up again.
    Sync(SyncStep),
}

/// The decision for one file, as a mathematical value.
pub enum Decision {
    /// The synchronization fails.
    Fail(ErrorView),
    /// The file is not routed; holds the reason.
    Skipped(Seq<char>),
    /// The file was copied before, with the content it has now.
    AlreadySynced,
    /// The drive cannot be reached: the record is stored as pending. It
    /// holds the time since which the file waits.
    Pending(PendingSyncView),
    /// The drive can be reached: the file is to be copied; holds the record
    /// that is to be kept afterwards.
    Copy(FileStateView),
}

/// Where the drive of a route is mounted, if it can be reached. A route
/// with a fixed mount point is reached where a connected drive is mounted at
/// exactly that point. Any other route is reached where the name of a
/// connected drive contains the route's label, case ignored; the first such
/// drive of the listing counts.
pub open spec fn reachable_mount(drive: DriveConfigView, drives: Seq<DriveInfoView>) -> Option<
    Seq<char>,
> {
    match drive.path {
        Some(p) => if mounted_at(drives, p) {
            Some(p)
        } else {
            None
        },
        None => match find_by_label(drives, drive.label) {
            Some(d) => Some(d.mount_point),
            None => None,
        },
    }
}

/// Where the copy of a file goes: below the drive's mount point, in the
/// directory of the file's category, at the file's path relative to the
/// source directory (at its whole path where it is not under that
/// directory).
pub open spec fn destination(
    mount: Seq<char>,
    category: Seq<char>,
    path: Seq<char>,
    root: Seq<char>,
) -> Seq<char> {
    join_path(join_path(mount, category), relative_path(path, root))
}

/// Since when the file at `path` waits: since the time that its pending
/// record holds, or since `now` where it has none.
pub open spec fn waiting_since(pending: Seq<PendingSyncView>, path: Seq<char>, now: u64) -> u64 {
    match find_pending(pending, path) {
        Some(record) => record.created_at,
        None => now,
    }
}

/// The decision for a file of which the kind, the size and the content hash
/// are known. A file that waits already keeps the time since which it
/// waits.
pub open spec fn decide_routed(
    root: Seq<char>,
    routes: Seq<RouteView>,
    files: Seq<FileStateView>,
    pending: Seq<PendingSyncView>,
    path: Seq<char>,
    file_type: FileType,
    size: u64,
    hash: Seq<char>,
    inventory: InventoryView,
    now: u64,
) -> Decision {
    if file_type == FileType::Unknown {
        Decision::Skipped("Unknown file type"@)
    } else {
        match find_route(routes, file_type.category()) {
            None => Decision::Fail(ErrorView::NoRoute(file_type.category())),
            Some(route) => if is_synced(files, path, hash) {
                Decision::AlreadySynced
            } else {
                match inventory {
                    InventoryView::Unavailable(cause) => Decision::Fail(
                        ErrorView::Io(path, SyncStage::Inventory, cause),
                    ),
                    InventoryView::Drives(drives) => match reachable_mount(route.drive, drives) {
                        None => Decision::Pending(
                            PendingSyncView {
                                source_path: path,
                                file_category: file_type.category(),
                                target_drive: route.uuid,
                                hash,
                                size,
                                created_at: waiting_since(pending, path, now),
                            },
                        ),
                        Some(mount) => Decision::Copy(
                            FileStateView {
                                source_path: path,
                                hash,
                                size,
                                last_synced: now,
                                target_drive: route.uuid,
                                target_path: destination(
                                    mount,
                                    file_type.category(),
                                    path,
                                    root,
                                ),
                                file_category: file_type.category(),
                            },
                        ),
                    },
                }
            },
        }
    }
}

/// The decision for a file as the caller found it.
pub open spec fn decide(
    root: Seq<char>,
    routes: Seq<RouteView>,
    files: Seq<FileStateView>,
    pending: Seq<PendingSyncView>,
    path: Seq<char>,
    source: SourceView,
    inventory: InventoryView,
    now: u64,
) -> Decision {
    match source {
        SourceView::Missing => Decision::Fail(ErrorView::NotFound(path)),
        SourceView::Unreadable(cause) => Decision::Fail(
            ErrorView::Io(path, SyncStage::Hash, cause),
        ),
        SourceView::Content(data) => decide_routed(
            root,
            routes,
            files,
            pending,
            path,
            file_type_of(path, data),
            data.len() as u64,
            blake3_hex(data),
            inventory,
            now,
        ),
    }
}

/// The pending records after a decision: a file that waits is stored, and
/// nothing else changes.
pub open spec fn pending_after(pending: Seq<PendingSyncView>, d: Decision) -> Seq<
    PendingSyncView,
> {
    match d {
        Decision::Pending(record) => put_pending(pending, record),
        _ => pending,
    }
}

/// What the engine hands back for a decision.
pub open spec fn step_matches(r: Result<SyncStep, OrchestratorError>, d: Decision) -> bool {
    match d {
        Decision::Fail(e) => r is Err && r->Err_0@ == e,
        Decision::Skipped(reason) => r matches Ok(SyncStep::Done(SyncResult::Skipped(s))) && s@
            == reason,
        Decision::AlreadySynced => r matches Ok(SyncStep::Done(SyncResult::AlreadySynced)),
        Decision::Pending(record) => r matches Ok(SyncStep::Done(SyncResult::Pending(id)))
            && id@ == record.target_drive,
        Decision::Copy(record) => r matches Ok(SyncStep::Copy(job)) && job.record@ == record,
    }
}

/// Whether a copy is in place and whole: it was reported as made, with as
/// many bytes as the source file holds.
pub open spec fn copy_is_whole(record: FileStateView, outcome: CopyOutcome) -> bool {
    outcome matches CopyOutcome::Copied(n) && n == record.size
}

/// The record that is kept of a copy that was found in place at `now`.
pub open spec fn stamped(record: FileStateView, now: u64) -> FileStateView {
    FileStateView { last_synced: now, ..record }
}

/// The file records after the copy for `record` was reported: the record is
/// stored where the copy is whole, and nothing changes otherwise.
pub open spec fn files_after_copy(
    files: Seq<FileStateView>,
    record: FileStateView,
    outcome: CopyOutcome,
    now: u64,
) -> Seq<FileStateView> {
    if copy_is_whole(record, outcome) {
        put_file(files, stamped(record, now))
    } else {
        files
    }
}

/// The pending records after the copy for `record` was reported: the file
/// waits no longer where the copy is whole, and nothing changes otherwise.
pub open spec fn pending_after_copy(
    pending: Seq<PendingSyncView>,
    record: FileStateView,
    outcome: CopyOutcome,
) -> Seq<PendingSyncView> {
    if copy_is_whole(record, outcome) {
        drop_pending(pending, record.source_path)
    } else {
        pending
    }
}

/// The failure that is reported of a copy that is not whole.
pub open spec fn copy_failure(record: FileStateView, outcome: CopyOutcome) -> ErrorView {
    match outcome {
        CopyOutcome::Failed(cause) => ErrorView::Io(record.source_path, SyncStage::Copy, cause@),
        CopyOutcome::Copied(_) => ErrorView::Io(
            record.source_path,
            SyncStage::Copy,
            "the copy differs in size from the source"@,
        ),
    }
}

/// Whether the drive `uuid` is to be drained: it is reached, and a file
/// waits for it.
pub open spec fn wants_drain(
    route: RouteView,
    pending: Seq<PendingSyncView>,
    drives: Seq<DriveInfoView>,
) -> bool {
    reachable_mount(route.drive, drives) is Some && pending_for_drive(pending, route.uuid).len()
        > 0
}

/// The identifiers of the registered drives that are to be drained, in the
/// order of the configuration.
pub open spec fn drives_to_drain(
    routes: Seq<RouteView>,
    pending: Seq<PendingSyncView>,
    drives: Seq<DriveInfoView>,
) -> Seq<Seq<char>>
    decreases routes.len(),
{
    if routes.len() == 0 {
        Seq::empty()
    } else if wants_drain(routes.last(), pending, drives) {
        drives_to_drain(routes.drop_last(), pending, drives).push(routes.last().uuid)
    } else {
        drives_to_drain(routes.drop_last(), pending, drives)
    }
}

/// Where the drive of a route is mounted, if it can be reached.
pub fn route_mount(drive: &DriveConfig, drives: &DriveDetector) -> (r: Option<String>)
    ensures
        opt_string(r) == reachable_mount(drive@, drives@),
{
    match &drive.path {
        Some(p) => {
            if drives.is_drive_connected(p.as_str()) {
                Some(p.clone())
            } else {
                None
            }
        },
        None => match drives.find_drive_by_label(drive.label.as_str()) {
            Some(d) => Some(d.mount_point),
            None => None,
        },
    }
}

/// Where the copy of a file goes.
pub fn target_path(mount: &str, category: &str, path: &str, root: &str) -> (r: String)
    ensures
        r@ == destination(mount@, category@, path@, root@),
{
    let base = join(mount, category);
    let rel = relative_to(path, root);
    join(base.as_str(), rel.as_str())
}

/// The engine: the configuration and the record table. Records are kept
/// under the normalized form of a file's path; `fold_case` says that case
/// does not tell files apart.
pub struct SyncManager {
    pub config: Config,
    pub state: StateManager,
    pub fold_case: bool,
}

impl SyncManager {
    /// The record table holds no path twice.
    pub open spec fn wf(&self) -> bool {
        self.state.wf()
    }

    /// The normalized form of a path: the form under which records are kept.
    pub open spec fn key(&self, path: Seq<char>) -> Seq<char> {
        normalized(path, self.fold_case)
    }

    /// The source directory, in normalized form.
    pub open spec fn root(&self) -> Seq<char> {
        normalized(self.config.source.path@, self.fold_case)
    }

    /// The file records of the table.
    pub open spec fn files(&self) -> Seq<FileStateView> {
        self.state.file_records()
    }

    /// The pending records of the table.
    pub open spec fn pending(&self) -> Seq<PendingSyncView> {
        self.state.pending_records()
    }

    /// The decision for the file whose normalized path is `path`, of which
    /// the kind, the size and the content hash are known.
    pub open spec fn decision_routed(
        &self,
        path: Seq<char>,
        file_type: FileType,
        size: u64,
        hash: Seq<char>,
        inventory: InventoryView,
        now: u64,
    ) -> Decision {
        decide_routed(
            self.root(),
            self.config.routes(),
            self.files(),
            self.pending(),
            path,
            file_type,
            size,
            hash,
            inventory,
            now,
        )
    }

    /// The decision for the file whose normalized path is `path`, as the
    /// caller found it.
    pub open spec fn decision(
        &self,
        path: Seq<char>,
        source: SourceView,
        inventory: InventoryView,
        now: u64,
    ) -> Decision {
        decide(
            self.root(),
            self.config.routes(),
            self.files(),
            self.pending(),
            path,
            source,
            inventory,
            now,
        )
    }

    /// An engine for `config` that keeps its records in `state`, for files
    /// that case tells apart.
    pub fn new(config: Config, state: StateManager) -> (m: SyncManager)
        requires
            state.wf(),
        ensures
            m.wf(),
            m.config == config,
            m.state == state,
            !m.fold_case,
    {
        SyncManager { config, state, fold_case: false }
    }

    /// An engine for `config` that keeps its records in `state`; `fold_case`
    /// says that case does not tell files apart.
    pub fn with_case_folding(config: Config, state: StateManager, fold_case: bool) -> (m:
        SyncManager)
        requires
            state.wf(),
        ensures
            m.wf(),
            m.config == config,
            m.state == state,
            m.fold_case == fold_case,
    {
        SyncManager { config, state, fold_case }
    }

    /// Figures on what the table holds.
    pub fn get_stats(&self) -> (stats: SyncStats)
        ensures
            stats.total_files == self.files().len(),
            stats.total_size == if total_size(self.files()) <= u64::MAX {
                total_size(self.files())
            } else {
                u64::MAX as nat
            },
            stats.pending_syncs == self.pending().len(),
            counts_by_category(stats.by_category@, self.files()),
    {
        self.state.get_sync_stats()
    }

    /// Decides for the file whose normalized path is `path`, of which the
    /// kind, the size and the content hash are known. A file that waits for
    /// its drive is stored as pending, with the time since which it waits;
    /// no other record changes.
    pub fn route_file(
        &mut self,
        path: &str,
        file_type: FileType,
        size: u64,
        hash: &str,
        inventory: &InventoryRead,
        now: u64,
    ) -> (r: Result<SyncStep, OrchestratorError>)
        requires
            old(self).wf(),
        ensures
            final(self).wf(),
            final(self).config == old(self).config,
            final(self).fold_case == old(self).fold_case,
            final(self).files() == old(self).files(),
            step_matches(
                r,
                old(self).decision_routed(path@, file_type, size, hash@, inventory@, now),
            ),
            final(self).pending() == pending_after(
                old(self).pending(),
                old(self).decision_routed(path@, file_type, size, hash@, inventory@, now),
            ),
    {
        match file_type {
            FileType::Unknown => {
                return Ok(SyncStep::Done(SyncResult::Skipped("Unknown file type".to_owned())));
            },
            _ => {},
        }
        let category = file_type.as_str();
        let (uuid, drive) = match self.config.find_drive_for_category(category) {
            Some(e) => (e.0.clone(), e.1.clone()),
            None => {
                return Err(OrchestratorError::NoRoute(category.to_owned()));
            },
        };
        if self.state.is_file_synced(path, hash) {
            return Ok(SyncStep::Done(SyncResult::AlreadySynced));
        }
        let drives = match inventory {
            InventoryRead::Unavailable(cause) => {
                return Err(
                    OrchestratorError::Io(path.to_owned(), SyncStage::Inventory, cause.clone()),
                );
            },
            InventoryRead::Drives(d) => d,
        };
        match route_mount(&drive, drives) {
            None => {
                let created_at = match self.state.get_pending_sync(path) {
                    Some(waiting) => waiting.created_at,
                    None => now,
                };
                let pending = PendingSync {
                    source_path: path.to_owned(),
                    file_category: category.to_owned(),
                    target_drive: uuid.clone(),
                    hash: hash.to_owned(),
                    size,
                    created_at,
                };
                self.state.add_pending_sync(&pending);
                Ok(SyncStep::Done(SyncResult::Pending(uuid)))
            },
            Some(mount) => {
                let root = normalize_path(self.config.source.path.as_str(), self.fold_case);
                let target = target_path(mount.as_str(), category, path, root.as_str());
                Ok(
                    SyncStep::Copy(
                        CopyJob {
                            record: FileState {
                                source_path: path.to_owned(),
                                hash: hash.to_owned(),
                                size,
                                last_synced: now,
                                target_drive: uuid,
                                target_path: target,
                                file_category: category.to_owned(),
                            },
                        },
                    ),
                )
            },
        }
    }

    /// Decides for the file whose normalized path is `path`, as the caller
    /// found it. The kind is told from the file's bytes and name, and the
    /// content hash is the digest of its bytes. A file that waits for its
    /// drive is stored as pending, with the time since which it waits; no
    /// other record changes.
    pub fn sync_normalized(
        &mut self,
        path: &str,
        source: &SourceRead,
        inventory: &InventoryRead,
        now: u64,
    ) -> (r: Result<SyncStep, OrchestratorError>)
        requires
            old(self).wf(),
        ensures
            final(self).wf(),
            final(self).config == old(self).config,
            final(self).fold_case == old(self).fold_case,
            final(self).files() == old(self).files(),
            step_matches(r, old(self).decision(path@, source@, inventory@, now)),
            final(self).pending() == pending_after(
                old(self).pending(),
                old(self).decision(path@, source@, inventory@, now),
            ),
    {
        match source {
            SourceRead::Missing => Err(OrchestratorError::NotFound(path.to_owned())),
            SourceRead::Unreadable(cause) => Err(
                OrchestratorError::Io(path.to_owned(), SyncStage::Hash, cause.clone()),
            ),
            SourceRead::Content(data) => {
                let info = FileClassifier::get_file_info(path, data.as_slice());
                let hash = calculate_file_hash(data.as_slice());
                self.route_file(path, info.file_type, info.size, hash.as_str(), inventory, now)
            },
        }
    }

    /// Decides for the file at `source_path` as the caller found it: the
    /// path is normalized, and the file is decided on under that form.
    pub fn sync_file(
        &mut self,
        source_path: &str,
        source: &SourceRead,
        inventory: &InventoryRead,
        now: u64,
    ) -> (r: Result<SyncStep, OrchestratorError>)
        requires
            old(self).wf(),
        ensures
            final(self).wf(),
            final(self).config == old(self).config,
            final(self).fold_case == old(self).fold_case,
            final(self).files() == old(self).files(),
            step_matches(
                r,
                old(self).decision(old(self).key(source_path@), source@, inventory@, now),
            ),
            final(self).pending() == pending_after(
                old(self).pending(),
                old(self).decision(old(self).key(source_path@), source@, inventory@, now),
            ),
    {
        let path = normalize_path(source_path, self.fold_case);
        self.sync_normalized(path.as_str(), source, inventory, now)
    }

    /// Takes in how the copy for `job` went. Where the copy is in place
    /// with as many bytes as the source file holds, the file's record is
    /// stored, stamped with `now`, and the file waits no longer. Otherwise
    /// the failure is reported and no record changes.
    pub fn complete_copy(&mut self, job: CopyJob, outcome: &CopyOutcome, now: u64) -> (r: Result<
        SyncResult,
        OrchestratorError,
    >)
        requires
            old(self).wf(),
        ensures
            final(self).wf(),
            final(self).config == old(self).config,
            final(self).fold_case == old(self).fold_case,
            final(self).files() == files_after_copy(old(self).files(), job.record@, *outcome, now),
            final(self).pending() == pending_after_copy(
                old(self).pending(),
                job.record@,
                *outcome,
            ),
            match r {
                Ok(SyncResult::Synced(p)) => copy_is_whole(job.record@, *outcome) && p@
                    == job.record.target_path@,
                Ok(_) => false,
                Err(e) => !copy_is_whole(job.record@, *outcome) && e@ == copy_failure(
                    job.record@,
                    *outcome,
                ),
            },
    {
        match outcome {
            CopyOutcome::Failed(cause) => Err(
                OrchestratorError::Io(job.record.source_path, SyncStage::Copy, cause.clone()),
            ),
            CopyOutcome::Copied(n) => {
                if *n != job.record.size {
                    return Err(
                        OrchestratorError::Io(
                            job.record.source_path,
                            SyncStage::Copy,
                            "the copy differs in size from the source".to_owned(),
                        ),
                    );
                }
                let mut record = job.record;
                record.last_synced = now;
                self.state.save_file_state(&record);
                self.state.remove_pending_sync(record.source_path.as_str());
                Ok(SyncResult::Synced(record.target_path))
            },
        }
    }

    /// The files that wait for the drive `drive_uuid`, in the table's order.
    /// Their number is the number of files that a drain of the drive takes
    /// up.
    pub fn pending_for(&self, drive_uuid: &str) -> (out: Vec<PendingSync>)
        ensures
            pending_views(out@) == pending_for_drive(self.pending(), drive_uuid@),
    {
        self.state.get_pending_syncs(drive_uuid)
    }

    /// Takes up again the file that waits under the normalized path `path`.
    /// Where the source file is gone, its pending record is removed and
    /// nothing is copied. Otherwise the file is decided on as by
    /// `sync_normalized`.
    pub fn drain_pending_file(
        &mut self,
        path: &str,
        source: &SourceRead,
        inventory: &InventoryRead,
        now: u64,
    ) -> (r: Result<DrainStep, OrchestratorError>)
        requires
            old(self).wf(),
        ensures
            final(self).wf(),
            final(self).config == old(self).config,
            final(self).fold_case == old(self).fold_case,
            final(self).files() == old(self).files(),
            source@ is Missing ==> (r matches Ok(DrainStep::Removed)) && final(self).pending()
                == drop_pending(old(self).pending(), path@),
            !(source@ is Missing) ==> final(self).pending() == pending_after(
                old(self).pending(),
                old(self).decision(path@, source@, inventory@, now),
            ) && match r {
                Ok(DrainStep::Removed) => false,
                Ok(DrainStep::Sync(step)) => step_matches(
                    Ok(step),
                    old(self).decision(path@, source@, inventory@, now),
                ),
                Err(e) => step_matches(
                    Err(e),
                    old(self).decision(path@, source@, inventory@, now),
                ),
            },
    {
        match source {
            SourceRead::Missing => {
                self.state.remove_pending_sync(path);
                Ok(DrainStep::Removed)
            },
            _ => match self.sync_normalized(path, source, inventory, now) {
                Ok(step) => Ok(DrainStep::Sync(step)),
                Err(e) => Err(e),
            },
        }
    }

    /// The identifiers of the registered drives that are to be drained: those
    /// that can be reached and for which a file waits, in the order of the
    /// configuration.
    pub fn connected_drives_with_pending(&self, drives: &DriveDetector) -> (out: Vec<String>)
        ensures
            crate::config::strings(out@) == drives_to_drain(
                self.config.routes(),
                self.pending(),
                drives@,
            ),
    {
        let ghost all = self.config.routes();
        let n: usize = self.config.drives.len();
        let mut out: Vec<String> = Vec::new();
        let mut i: usize = 0;
        assert(all.subrange(0, 0) =~= Seq::<RouteView>::empty());
        assert(crate::config::strings(out@) =~= Seq::<Seq<char>>::empty());
        while i < n
            invariant
                n == self.config.drives@.len(),
                all == self.config.routes(),
                i <= n,
                crate::config::strings(out@) == drives_to_drain(
                    all.subrange(0, i as int),
                    self.pending(),
                    drives@,
                ),
            decreases n - i,
        {
            let ghost before = crate::config::strings(out@);
            assert(all.subrange(0, i + 1).drop_last() =~= all.subrange(0, i as int));
            assert(all.subrange(0, i + 1).last() == all[i as int]);
            let entry = &self.config.drives[i];
            let reached = route_mount(&entry.1, drives);
            if reached.is_some() {
                let waiting = self.state.get_pending_syncs(entry.0.as_str());
                if waiting.len() > 0 {
                    out.push(entry.0.clone());
                    assert(crate::config::strings(out@) =~= before.push(all[i as int].uuid));
                }
            }
            i += 1;
        }
        assert(all.subrange(0, n as int) =~= all);
        out
    }
}

} // verus!
