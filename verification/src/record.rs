//! The two kinds of record that the table keeps, and the mathematical model
//! of a table: a sequence of records in which no source path occurs twice.

use vstd::prelude::*;

verus! {

/// What is known of a file that was copied to its drive.
#[derive(Debug, PartialEq, Eq)]
pub struct FileState {
    pub source_path: String,
    pub hash: String,
    pub size: u64,
    pub last_synced: u64,
    pub target_drive: String,
    pub target_path: String,
    pub file_category: String,
}

/// A `FileState` as a mathematical value.
pub struct FileStateView {
    pub source_path: Seq<char>,
    pub hash: Seq<char>,
    pub size: u64,
    pub last_synced: u64,
    pub target_drive: Seq<char>,
    pub target_path: Seq<char>,
    pub file_category: Seq<char>,
}

impl View for FileState {
    type V = FileStateView;

    open spec fn view(&self) -> FileStateView {
        FileStateView {
            source_path: self.source_path@,
            hash: self.hash@,
            size: self.size,
            last_synced: self.last_synced,
            target_drive: self.target_drive@,
            target_path: self.target_path@,
            file_category: self.file_category@,
        }
    }
}

impl Clone for FileState {
    fn clone(&self) -> (r: FileState)
        ensures
            r@ == self@,
    {
        FileState {
            source_path: self.source_path.clone(),
            hash: self.hash.clone(),
            size: self.size,
            last_synced: self.last_synced,
            target_drive: self.target_drive.clone(),
            target_path: self.target_path.clone(),
            file_category: self.file_category.clone(),
        }
    }
}

/// A file that waits for its drive to be connected.
#[derive(Debug, PartialEq, Eq)]
pub struct PendingSync {
    pub source_path: String,
    pub file_category: String,
    pub target_drive: String,
    pub hash: String,
    pub size: u64,
    pub created_at: u64,
}

/// A `PendingSync` as a mathematical value.
pub struct PendingSyncView {
    pub source_path: Seq<char>,
    pub file_category: Seq<char>,
    pub target_drive: Seq<char>,
    pub hash: Seq<char>,
    pub size: u64,
    pub created_at: u64,
}

impl View for PendingSync {
    type V = PendingSyncView;

    open spec fn view(&self) -> PendingSyncView {
        PendingSyncView {
            source_path: self.source_path@,
            file_category: self.file_category@,
            target_drive: self.target_drive@,
            hash: self.hash@,
            size: self.size,
            created_at: self.created_at,
        }
    }
}

impl Clone for PendingSync {
    fn clone(&self) -> (r: PendingSync)
        ensures
            r@ == self@,
    {
        PendingSync {
            source_path: self.source_path.clone(),
            file_category: self.file_category.clone(),
            target_drive: self.target_drive.clone(),
            hash: self.hash.clone(),
            size: self.size,
            created_at: self.created_at,
        }
    }
}

/// The file records of a vector as mathematical values, in order.
pub open spec fn file_views(v: Seq<FileState>) -> Seq<FileStateView> {
    v.map_values(|f: FileState| f@)
}

/// The pending records of a vector as mathematical values, in order.
pub open spec fn pending_views(v: Seq<PendingSync>) -> Seq<PendingSyncView> {
    v.map_values(|p: PendingSync| p@)
}

/// The source paths of a sequence of file records, in order.
pub open spec fn file_paths(records: Seq<FileStateView>) -> Seq<Seq<char>> {
    records.map_values(|r: FileStateView| r.source_path)
}

/// The source paths of a sequence of pending records, in order.
pub open spec fn pending_paths(records: Seq<PendingSyncView>) -> Seq<Seq<char>> {
    records.map_values(|r: PendingSyncView| r.source_path)
}

/// The position of `path` among `paths`, where it occurs.
pub open spec fn position(paths: Seq<Seq<char>>, path: Seq<char>) -> int {
    choose|i: int| 0 <= i < paths.len() && paths[i] == path
}

/// The file record of `path`, if the records hold one.
pub open spec fn find_file(records: Seq<FileStateView>, path: Seq<char>) -> Option<
    FileStateView,
> {
    if file_paths(records).contains(path) {
        Some(records[position(file_paths(records), path)])
    } else {
        None
    }
}

/// The records after `record` was stored: it replaces the record of the
/// same source path where there is one, and is added at the end otherwise.
pub open spec fn put_file(records: Seq<FileStateView>, record: FileStateView) -> Seq<
    FileStateView,
> {
    if file_paths(records).contains(record.source_path) {
        records.update(position(file_paths(records), record.source_path), record)
    } else {
        records.push(record)
    }
}

/// The records without the record of `path`.
pub open spec fn drop_file(records: Seq<FileStateView>, path: Seq<char>) -> Seq<
    FileStateView,
> {
    if file_paths(records).contains(path) {
        records.remove(position(file_paths(records), path))
    } else {
        records
    }
}

/// The pending record of `path`, if the records hold one.
pub open spec fn find_pending(records: Seq<PendingSyncView>, path: Seq<char>) -> Option<
    PendingSyncView,
> {
    if pending_paths(records).contains(path) {
        Some(records[position(pending_paths(records), path)])
    } else {
        None
    }
}

/// The records after `record` was stored: it replaces the record of the
/// same source path where there is one, and is added at the end otherwise.
pub open spec fn put_pending(records: Seq<PendingSyncView>, record: PendingSyncView) -> Seq<
    PendingSyncView,
> {
    if pending_paths(records).contains(record.source_path) {
        records.update(position(pending_paths(records), record.source_path), record)
    } else {
        records.push(record)
    }
}

/// The records without the record of `path`.
pub open spec fn drop_pending(records: Seq<PendingSyncView>, path: Seq<char>) -> Seq<
    PendingSyncView,
> {
    if pending_paths(records).contains(path) {
        records.remove(position(pending_paths(records), path))
    } else {
        records
    }
}

/// The number of times that `path` occurs among `paths`.
pub open spec fn occurrences(paths: Seq<Seq<char>>, path: Seq<char>) -> nat
    decreases paths.len(),
{
    if paths.len() == 0 {
        0
    } else {
        occurrences(paths.drop_last(), path) + if paths.last() == path {
            1nat
        } else {
            0nat
        }
    }
}

/// The pending records that wait for the drive `drive`, in order.
pub open spec fn pending_for_drive(records: Seq<PendingSyncView>, drive: Seq<char>) -> Seq<
    PendingSyncView,
>
    decreases records.len(),
{
    if records.len() == 0 {
        records
    } else if records.last().target_drive == drive {
        pending_for_drive(records.drop_last(), drive).push(records.last())
    } else {
        pending_for_drive(records.drop_last(), drive)
    }
}

/// The sizes of the files of the records, added up.
pub open spec fn total_size(records: Seq<FileStateView>) -> nat
    decreases records.len(),
{
    if records.len() == 0 {
        0
    } else {
        total_size(records.drop_last()) + records.last().size as nat
    }
}

/// The number of records whose file is of the category `category`.
pub open spec fn count_category(records: Seq<FileStateView>, category: Seq<char>) -> nat
    decreases records.len(),
{
    if records.len() == 0 {
        0
    } else {
        count_category(records.drop_last(), category) + if records.last().file_category
            == category {
            1nat
        } else {
            0nat
        }
    }
}

/// What a scan of persisted file records leaves: each entry that could be
/// read is stored in turn, each that could not is passed over.
pub open spec fn restore_files(entries: Seq<Option<FileStateView>>) -> Seq<FileStateView>
    decreases entries.len(),
{
    if entries.len() == 0 {
        Seq::empty()
    } else {
        match entries.last() {
            Some(r) => put_file(restore_files(entries.drop_last()), r),
            None => restore_files(entries.drop_last()),
        }
    }
}

/// What a scan of persisted pending records leaves: each entry that could
/// be read is stored in turn, each that could not is passed over.
pub open spec fn restore_pending(entries: Seq<Option<PendingSyncView>>) -> Seq<
    PendingSyncView,
>
    decreases entries.len(),
{
    if entries.len() == 0 {
        Seq::empty()
    } else {
        match entries.last() {
            Some(r) => put_pending(restore_pending(entries.drop_last()), r),
            None => restore_pending(entries.drop_last()),
        }
    }
}

/// The number of entries of a scan that could not be read.
pub open spec fn unreadable<T>(entries: Seq<Option<T>>) -> nat
    decreases entries.len(),
{
    if entries.len() == 0 {
        0
    } else {
        unreadable(entries.drop_last()) + if entries.last() is None {
            1nat
        } else {
            0nat
        }
    }
}

/// The entries of a scan of file records as mathematical values.
pub open spec fn scanned_files(entries: Seq<Option<FileState>>) -> Seq<Option<FileStateView>> {
    entries.map_values(
        |e: Option<FileState>|
            match e {
                Some(f) => Some(f@),
                None => None,
            },
    )
}

/// The entries of a scan of pending records as mathematical values.
pub open spec fn scanned_pending(entries: Seq<Option<PendingSync>>) -> Seq<
    Option<PendingSyncView>,
> {
    entries.map_values(
        |e: Option<PendingSync>|
            match e {
                Some(p) => Some(p@),
                None => None,
            },
    )
}

} // verus!
