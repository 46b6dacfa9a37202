//! The record table: one record at most per source path for files that were
//! copied, and one at most per source path for files that wait for a drive.

use vstd::prelude::*;
use crate::record::{
    count_category, drop_file, drop_pending, file_paths, file_views, find_file, find_pending,
    pending_for_drive, pending_paths, pending_views, position, put_file, put_pending,
    restore_files, restore_pending, scanned_files, scanned_pending, total_size, unreadable,
    FileState, FileStateView, PendingSync, PendingSyncView,
};
use crate::text::{concat, str_eq};

verus! {

/// Storing a record under a path that the records do not hold twice leaves
/// no path twice, and the record is found under its path afterwards.
pub proof fn lemma_put_file(records: Seq<FileStateView>, record: FileStateView)
    requires
        file_paths(records).no_duplicates(),
    ensures
        file_paths(put_file(records, record)).no_duplicates(),
        find_file(put_file(records, record), record.source_path) == Some(record),
        forall|p: Seq<char>|
            p != record.source_path ==> #[trigger] find_file(put_file(records, record), p)
                == find_file(records, p),
        put_file(records, record).len() == if file_paths(records).contains(
            record.source_path,
        ) {
            records.len()
        } else {
            records.len() + 1
        },
{
    let paths = file_paths(records);
    let after = put_file(records, record);
    let after_paths = file_paths(after);
    if paths.contains(record.source_path) {
        let i = position(paths, record.source_path);
        assert(after_paths =~= paths);
        lemma_position(after_paths, record.source_path, i);
    } else {
        assert(after_paths =~= paths.push(record.source_path));
        lemma_position(after_paths, record.source_path, records.len() as int);
    }
    assert forall|p: Seq<char>| p != record.source_path implies #[trigger] find_file(after, p)
        == find_file(records, p) by {
        if paths.contains(p) {
            let j = position(paths, p);
            assert(after_paths[j] == p);
            lemma_position(after_paths, p, j);
        } else {
            if after_paths.contains(p) {
                let j = position(after_paths, p);
                assert(paths[j] == p);
            }
        }
    }
}

/// Where no path occurs twice, the position of a path is the one index at
/// which it stands.
pub proof fn lemma_position(paths: Seq<Seq<char>>, path: Seq<char>, i: int)
    requires
        paths.no_duplicates(),
        0 <= i < paths.len(),
        paths[i] == path,
    ensures
        paths.contains(path),
        position(paths, path) == i,
{
    let j = position(paths, path);
    assert(0 <= j < paths.len() && paths[j] == path);
}

/// Removing the record of a path leaves no path twice and no record under
/// that path; the records of other paths stay.
pub proof fn lemma_drop_file(records: Seq<FileStateView>, path: Seq<char>)
    requires
        file_paths(records).no_duplicates(),
    ensures
        file_paths(drop_file(records, path)).no_duplicates(),
        find_file(drop_file(records, path), path) is None,
        drop_file(records, path).len() == if file_paths(records).contains(path) {
            records.len() - 1
        } else {
            records.len() as int
        },
        forall|p: Seq<char>|
            p != path ==> #[trigger] find_file(drop_file(records, path), p) == find_file(
                records,
                p,
            ),
{
    let paths = file_paths(records);
    let after = drop_file(records, path);
    let after_paths = file_paths(after);
    if paths.contains(path) {
        let i = position(paths, path);
        assert(after_paths =~= paths.remove(i));
        assert forall|a: int, b: int|
            0 <= a < after_paths.len() && 0 <= b < after_paths.len() && a != b implies after_paths[a]
            != after_paths[b] by {
            let a0 = if a < i { a } else { a + 1 };
            let b0 = if b < i { b } else { b + 1 };
            assert(after_paths[a] == paths[a0] && after_paths[b] == paths[b0]);
        }
        if after_paths.contains(path) {
            let j = position(after_paths, path);
            let j0 = if j < i { j } else { j + 1 };
            assert(paths[j0] == path);
        }
        assert forall|p: Seq<char>| p != path implies #[trigger] find_file(after, p)
            == find_file(records, p) by {
            if paths.contains(p) {
                let j = position(paths, p);
                let j1 = if j < i { j } else { j - 1 };
                assert(after_paths[j1] == p);
                lemma_position(after_paths, p, j1);
            } else {
                if after_paths.contains(p) {
                    let j = position(after_paths, p);
                    let j0 = if j < i { j } else { j + 1 };
                    assert(paths[j0] == p);
                }
            }
        }
    }
}

/// Storing a pending record under a path that the records do not hold twice
/// leaves no path twice, and the record is found under its path afterwards.
pub proof fn lemma_put_pending(records: Seq<PendingSyncView>, record: PendingSyncView)
    requires
        pending_paths(records).no_duplicates(),
    ensures
        pending_paths(put_pending(records, record)).no_duplicates(),
        find_pending(put_pending(records, record), record.source_path) == Some(record),
        forall|p: Seq<char>|
            p != record.source_path ==> #[trigger] find_pending(put_pending(records, record), p)
                == find_pending(records, p),
        put_pending(records, record).len() == if pending_paths(records).contains(
            record.source_path,
        ) {
            records.len()
        } else {
            records.len() + 1
        },
{
    let paths = pending_paths(records);
    let after = put_pending(records, record);
    let after_paths = pending_paths(after);
    if paths.contains(record.source_path) {
        let i = position(paths, record.source_path);
        assert(after_paths =~= paths);
        lemma_position(after_paths, record.source_path, i);
    } else {
        assert(after_paths =~= paths.push(record.source_path));
        lemma_position(after_paths, record.source_path, records.len() as int);
    }
    assert forall|p: Seq<char>| p != record.source_path implies #[trigger] find_pending(
        after,
        p,
    ) == find_pending(records, p) by {
        if paths.contains(p) {
            let j = position(paths, p);
            assert(after_paths[j] == p);
            lemma_position(after_paths, p, j);
        } else {
            if after_paths.contains(p) {
                let j = position(after_paths, p);
                assert(paths[j] == p);
            }
        }
    }
}

/// Removing the pending record of a path leaves no path twice and no record
/// under that path; the records of other paths stay.
pub proof fn lemma_drop_pending(records: Seq<PendingSyncView>, path: Seq<char>)
    requires
        pending_paths(records).no_duplicates(),
    ensures
        pending_paths(drop_pending(records, path)).no_duplicates(),
        find_pending(drop_pending(records, path), path) is None,
        drop_pending(records, path).len() == if pending_paths(records).contains(path) {
            records.len() - 1
        } else {
            records.len() as int
        },
        forall|p: Seq<char>|
            p != path ==> #[trigger] find_pending(drop_pending(records, path), p)
                == find_pending(records, p),
{
    let paths = pending_paths(records);
    let after = drop_pending(records, path);
    let after_paths = pending_paths(after);
    if paths.contains(path) {
        let i = position(paths, path);
        assert(after_paths =~= paths.remove(i));
        assert forall|a: int, b: int|
            0 <= a < after_paths.len() && 0 <= b < after_paths.len() && a != b implies after_paths[a]
            != after_paths[b] by {
            let a0 = if a < i { a } else { a + 1 };
            let b0 = if b < i { b } else { b + 1 };
            assert(after_paths[a] == paths[a0] && after_paths[b] == paths[b0]);
        }
        if after_paths.contains(path) {
            let j = position(after_paths, path);
            let j0 = if j < i { j } else { j + 1 };
            assert(paths[j0] == path);
        }
        assert forall|p: Seq<char>| p != path implies #[trigger] find_pending(after, p)
            == find_pending(records, p) by {
            if paths.contains(p) {
                let j = position(paths, p);
                let j1 = if j < i { j } else { j - 1 };
                assert(after_paths[j1] == p);
                lemma_position(after_paths, p, j1);
            } else {
                if after_paths.contains(p) {
                    let j = position(after_paths, p);
                    let j0 = if j < i { j } else { j + 1 };
                    assert(paths[j0] == p);
                }
            }
        }
    }
}

/// The table of records.
pub struct StateManager {
    files: Vec<FileState>,
    pending: Vec<PendingSync>,
}

impl StateManager {
    /// The file records that the table holds, in the order in which their
    /// paths were first stored.
    pub closed spec fn file_records(&self) -> Seq<FileStateView> {
        file_views(self.files@)
    }

    /// The pending records that the table holds, in the order in which
    /// their paths were first stored.
    pub closed spec fn pending_records(&self) -> Seq<PendingSyncView> {
        pending_views(self.pending@)
    }

    /// No source path has two file records, and none has two pending records.
    pub open spec fn wf(&self) -> bool {
        &&& file_paths(self.file_records()).no_duplicates()
        &&& pending_paths(self.pending_records()).no_duplicates()
    }

    /// The key under which the file record of `path` is persisted.
    pub fn file_key(path: &str) -> (key: String)
        ensures
            key@ == "file:"@ + path@,
    {
        concat("file:", path)
    }

    /// The key under which the pending record of `path` is persisted.
    pub fn pending_key(path: &str) -> (key: String)
        ensures
            key@ == "pending:"@ + path@,
    {
        concat("pending:", path)
    }

    /// An empty table.
    pub fn new() -> (s: StateManager)
        ensures
            s.wf(),
            s.file_records() == Seq::<FileStateView>::empty(),
            s.pending_records() == Seq::<PendingSyncView>::empty(),
    {
        let s = StateManager { files: Vec::new(), pending: Vec::new() };
        assert(s.file_records() =~= Seq::<FileStateView>::empty());
        assert(s.pending_records() =~= Seq::<PendingSyncView>::empty());
        s
    }

    /// The index of the file record of `path`.
    fn file_index(&self, path: &str) -> (r: Option<usize>)
        requires
            self.wf(),
        ensures
            match r {
                Some(i) => i < self.files@.len() && file_paths(self.file_records()).contains(
                    path@,
                ) && position(file_paths(self.file_records()), path@) == i,
                None => !file_paths(self.file_records()).contains(path@),
            },
    {
        let ghost paths = file_paths(self.file_records());
        let n: usize = self.files.len();
        let mut i: usize = 0;
        while i < n
            invariant
                n == self.files@.len(),
                paths == file_paths(self.file_records()),
                paths.no_duplicates(),
                i <= n,
                forall|j: int| 0 <= j < i ==> paths[j] != path@,
            decreases n - i,
        {
            if str_eq(self.files[i].source_path.as_str(), path) {
                proof {
                    lemma_position(paths, path@, i as int);
                }
                return Some(i);
            }
            i += 1;
        }
        None
    }

    /// The index of the pending record of `path`.
    fn pending_index(&self, path: &str) -> (r: Option<usize>)
        requires
            self.wf(),
        ensures
            match r {
                Some(i) => i < self.pending@.len() && pending_paths(
                    self.pending_records(),
                ).contains(path@) && position(pending_paths(self.pending_records()), path@) == i,
                None => !pending_paths(self.pending_records()).contains(path@),
            },
    {
        let ghost paths = pending_paths(self.pending_records());
        let n: usize = self.pending.len();
        let mut i: usize = 0;
        while i < n
            invariant
                n == self.pending@.len(),
                paths == pending_paths(self.pending_records()),
                paths.no_duplicates(),
                i <= n,
                forall|j: int| 0 <= j < i ==> paths[j] != path@,
            decreases n - i,
        {
            if str_eq(self.pending[i].source_path.as_str(), path) {
                proof {
                    lemma_position(paths, path@, i as int);
                }
                return Some(i);
            }
            i += 1;
        }
        None
    }

    /// Stores the record of a file that was copied: it replaces the record
    /// of the same source path where there is one.
    pub fn save_file_state(&mut self, state: &FileState)
        requires
            old(self).wf(),
        ensures
            final(self).wf(),
            final(self).file_records() == put_file(old(self).file_records(), state@),
            final(self).pending_records() == old(self).pending_records(),
    {
        proof {
            lemma_put_file(self.file_records(), state@);
        }
        match self.file_index(state.source_path.as_str()) {
            Some(i) => {
                self.files.set(i, state.clone());
            },
            None => {
                self.files.push(state.clone());
            },
        }
        assert(self.file_records() =~= put_file(old(self).file_records(), state@));
    }

    /// The record of the file at `source_path`, if it was copied.
    pub fn get_file_state(&self, source_path: &str) -> (r: Option<FileState>)
        requires
            self.wf(),
        ensures
            match r {
                Some(s) => find_file(self.file_records(), source_path@) == Some(s@),
                None => find_file(self.file_records(), source_path@) is None,
            },
    {
        match self.file_index(source_path) {
            Some(i) => Some(self.files[i].clone()),
            None => None,
        }
    }

    /// Whether the file at `source_path` was copied with the content that
    /// hashes to `current_hash`.
    pub fn is_file_synced(&self, source_path: &str, current_hash: &str) -> (r: bool)
        requires
            self.wf(),
        ensures
            r == is_synced(self.file_records(), source_path@, current_hash@),
    {
        match self.file_index(source_path) {
            Some(i) => str_eq(self.files[i].hash.as_str(), current_hash),
            None => false,
        }
    }

    /// Removes the record of the file at `source_path`; nothing changes
    /// where there is none.
    pub fn remove_file_state(&mut self, source_path: &str)
        requires
            old(self).wf(),
        ensures
            final(self).wf(),
            final(self).file_records() == drop_file(old(self).file_records(), source_path@),
            final(self).pending_records() == old(self).pending_records(),
    {
        proof {
            lemma_drop_file(self.file_records(), source_path@);
        }
        match self.file_index(source_path) {
            Some(i) => {
                self.files.remove(i);
            },
            None => {},
        }
        assert(self.file_records() =~= drop_file(old(self).file_records(), source_path@));
    }

    /// Stores the record of a file that waits for its drive: it replaces the
    /// pending record of the same source path where there is one.
    pub fn add_pending_sync(&mut self, pending: &PendingSync)
        requires
            old(self).wf(),
        ensures
            final(self).wf(),
            final(self).pending_records() == put_pending(old(self).pending_records(), pending@),
            final(self).file_records() == old(self).file_records(),
    {
        proof {
            lemma_put_pending(self.pending_records(), pending@);
        }
        match self.pending_index(pending.source_path.as_str()) {
            Some(i) => {
                self.pending.set(i, pending.clone());
            },
            None => {
                self.pending.push(pending.clone());
            },
        }
        assert(self.pending_records() =~= put_pending(old(self).pending_records(), pending@));
    }

    /// The pending record of the file at `source_path`, if it waits.
    pub fn get_pending_sync(&self, source_path: &str) -> (r: Option<PendingSync>)
        requires
            self.wf(),
        ensures
            match r {
                Some(p) => find_pending(self.pending_records(), source_path@) == Some(p@),
                None => find_pending(self.pending_records(), source_path@) is None,
            },
    {
        match self.pending_index(source_path) {
            Some(i) => Some(self.pending[i].clone()),
            None => None,
        }
    }

    /// Removes the pending record of the file at `source_path`; nothing
    /// changes where there is none.
    pub fn remove_pending_sync(&mut self, source_path: &str)
        requires
            old(self).wf(),
        ensures
            final(self).wf(),
            final(self).pending_records() == drop_pending(
                old(self).pending_records(),
                source_path@,
            ),
            final(self).file_records() == old(self).file_records(),
    {
        proof {
            lemma_drop_pending(self.pending_records(), source_path@);
        }
        match self.pending_index(source_path) {
            Some(i) => {
                self.pending.remove(i);
            },
            None => {},
        }
        assert(self.pending_records() =~= drop_pending(
            old(self).pending_records(),
            source_path@,
        ));
    }

    /// Every file record, in the table's order.
    pub fn get_all_file_states(&self) -> (out: Vec<FileState>)
        ensures
            file_views(out@) == self.file_records(),
    {
        let n: usize = self.files.len();
        let mut out: Vec<FileState> = Vec::new();
        let mut i: usize = 0;
        while i < n
            invariant
                n == self.files@.len(),
                i <= n,
                file_views(out@) == file_views(self.files@).subrange(0, i as int),
            decreases n - i,
        {
            let ghost before = file_views(out@);
            out.push(self.files[i].clone());
            assert(file_views(out@) =~= before.push(file_views(self.files@)[i as int]));
            i += 1;
            assert(file_views(out@) =~= file_views(self.files@).subrange(0, i as int));
        }
        assert(file_views(out@) =~= file_views(self.files@));
        out
    }

    /// Every pending record, in the table's order.
    pub fn get_all_pending_syncs(&self) -> (out: Vec<PendingSync>)
        ensures
            pending_views(out@) == self.pending_records(),
    {
        let n: usize = self.pending.len();
        let mut out: Vec<PendingSync> = Vec::new();
        let mut i: usize = 0;
        while i < n
            invariant
                n == self.pending@.len(),
                i <= n,
                pending_views(out@) == pending_views(self.pending@).subrange(0, i as int),
            decreases n - i,
        {
            let ghost before = pending_views(out@);
            out.push(self.pending[i].clone());
            assert(pending_views(out@) =~= before.push(pending_views(self.pending@)[i as int]));
            i += 1;
            assert(pending_views(out@) =~= pending_views(self.pending@).subrange(0, i as int));
        }
        assert(pending_views(out@) =~= pending_views(self.pending@));
        out
    }

    /// The pending records that wait for the drive `drive_uuid`, in the
    /// table's order.
    pub fn get_pending_syncs(&self, drive_uuid: &str) -> (out: Vec<PendingSync>)
        ensures
            pending_views(out@) == pending_for_drive(self.pending_records(), drive_uuid@),
    {
        let ghost all = pending_views(self.pending@);
        let n: usize = self.pending.len();
        let mut out: Vec<PendingSync> = Vec::new();
        let mut i: usize = 0;
        assert(all.subrange(0, 0) =~= Seq::<PendingSyncView>::empty());
        while i < n
            invariant
                n == self.pending@.len(),
                all == pending_views(self.pending@),
                i <= n,
                pending_views(out@) == pending_for_drive(all.subrange(0, i as int), drive_uuid@),
            decreases n - i,
        {
            let ghost before = pending_views(out@);
            assert(all.subrange(0, i + 1).drop_last() =~= all.subrange(0, i as int));
            if str_eq(self.pending[i].target_drive.as_str(), drive_uuid) {
                out.push(self.pending[i].clone());
                assert(pending_views(out@) =~= before.push(all[i as int]));
            }
            i += 1;
        }
        assert(all.subrange(0, n as int) =~= all);
        out
    }

    /// The number of file records, the sizes of their files added up (no
    /// more than `u64::MAX`), the number of pending records, and the number
    /// of file records of each category that occurs.
    pub fn get_sync_stats(&self) -> (stats: SyncStats)
        ensures
            stats.total_files == self.file_records().len(),
            stats.total_size == if total_size(self.file_records()) <= u64::MAX {
                total_size(self.file_records())
            } else {
                u64::MAX as nat
            },
            stats.pending_syncs == self.pending_records().len(),
            counts_by_category(stats.by_category@, self.file_records()),
    {
        let ghost all = file_views(self.files@);
        let n: usize = self.files.len();
        let mut total: u64 = 0;
        let mut by_category: Vec<CategoryCount> = Vec::new();
        let mut i: usize = 0;
        assert(all.subrange(0, 0) =~= Seq::<FileStateView>::empty());
        while i < n
            invariant
                n == self.files@.len(),
                all == file_views(self.files@),
                i <= n,
                total == if total_size(all.subrange(0, i as int)) <= u64::MAX {
                    total_size(all.subrange(0, i as int))
                } else {
                    u64::MAX as nat
                },
                counts_by_category(by_category@, all.subrange(0, i as int)),
            decreases n - i,
        {
            let ghost pre = all.subrange(0, i as int);
            let ghost next = all.subrange(0, i + 1);
            let ghost before = by_category@;
            assert(next.drop_last() =~= pre);
            assert(next.last() == all[i as int]);
            let size: u64 = self.files[i].size;
            if size > u64::MAX - total {
                total = u64::MAX;
            } else {
                total = total + size;
            }
            let category = self.files[i].file_category.as_str();
            match category_index(&by_category, category) {
                Some(e) => {
                    proof {
                        lemma_count_category_bound(pre, category@);
                    }
                    let entry = CategoryCount {
                        category: by_category[e].category.clone(),
                        count: by_category[e].count + 1,
                    };
                    by_category.set(e, entry);
                    assert forall|k: int| 0 <= k < next.len() implies listed(
                        by_category@,
                        #[trigger] next[k].file_category,
                    ) by {
                        if k < pre.len() {
                            assert(next[k] == pre[k]);
                            let w = choose|w: int|
                                0 <= w < before.len() && before[w].category@
                                    == pre[k].file_category;
                            assert(by_category@[w].category@ == pre[k].file_category);
                        } else {
                            assert(by_category@[e as int].category@ == next[k].file_category);
                        }
                    }
                },
                None => {
                    proof {
                        assert forall|k: int| 0 <= k < pre.len() implies pre[k].file_category
                            != category@ by {
                            if pre[k].file_category == category@ {
                                assert(listed(before, pre[k].file_category));
                            }
                        }
                        lemma_count_category_zero(pre, category@);
                    }
                    by_category.push(
                        CategoryCount { category: self.files[i].file_category.clone(), count: 1 },
                    );
                    assert forall|k: int| 0 <= k < next.len() implies listed(
                        by_category@,
                        #[trigger] next[k].file_category,
                    ) by {
                        if k < pre.len() {
                            assert(next[k] == pre[k]);
                            let w = choose|w: int|
                                0 <= w < before.len() && before[w].category@
                                    == pre[k].file_category;
                            assert(by_category@[w].category@ == pre[k].file_category);
                        } else {
                            assert(by_category@[before.len() as int].category@
                                == next[k].file_category);
                        }
                    }
                },
            }
            i += 1;
        }
        assert(all.subrange(0, n as int) =~= all);
        SyncStats {
            total_files: n,
            total_size: total,
            pending_syncs: self.pending.len(),
            by_category,
        }
    }

    /// The table that a scan of the persisted records leaves, and the number
    /// of entries that could not be read: each of those is passed over, and
    /// the scan goes on.
    pub fn from_scan(files: Vec<Option<FileState>>, pending: Vec<Option<PendingSync>>) -> (r: (
        StateManager,
        usize,
    ))
        requires
            files@.len() + pending@.len() <= usize::MAX,
        ensures
            r.0.wf(),
            r.0.file_records() == restore_files(scanned_files(files@)),
            r.0.pending_records() == restore_pending(scanned_pending(pending@)),
            r.1 == unreadable(scanned_files(files@)) + unreadable(scanned_pending(pending@)),
    {
        let mut table = StateManager::new();
        let mut skipped: usize = 0;
        let ghost f_all = scanned_files(files@);
        let ghost p_all = scanned_pending(pending@);
        let mut i: usize = 0;
        assert(f_all.subrange(0, 0) =~= Seq::<Option<FileStateView>>::empty());
        while i < files.len()
            invariant
                f_all == scanned_files(files@),
                i <= files@.len(),
                table.wf(),
                table.file_records() == restore_files(f_all.subrange(0, i as int)),
                table.pending_records() == Seq::<PendingSyncView>::empty(),
                skipped == unreadable(f_all.subrange(0, i as int)),
                skipped <= i,
            decreases files@.len() - i,
        {
            assert(f_all.subrange(0, i + 1).drop_last() =~= f_all.subrange(0, i as int));
            match &files[i] {
                Some(f) => {
                    table.save_file_state(f);
                },
                None => {
                    skipped = skipped + 1;
                },
            }
            i += 1;
        }
        assert(f_all.subrange(0, files@.len() as int) =~= f_all);
        let ghost f_skipped = skipped;
        let mut j: usize = 0;
        assert(p_all.subrange(0, 0) =~= Seq::<Option<PendingSyncView>>::empty());
        while j < pending.len()
            invariant
                p_all == scanned_pending(pending@),
                j <= pending@.len(),
                files@.len() + pending@.len() <= usize::MAX,
                table.wf(),
                table.file_records() == restore_files(f_all),
                table.pending_records() == restore_pending(p_all.subrange(0, j as int)),
                f_skipped <= files@.len(),
                skipped == f_skipped + unreadable(p_all.subrange(0, j as int)),
                skipped <= f_skipped + j,
            decreases pending@.len() - j,
        {
            assert(p_all.subrange(0, j + 1).drop_last() =~= p_all.subrange(0, j as int));
            match &pending[j] {
                Some(p) => {
                    table.add_pending_sync(p);
                },
                None => {
                    skipped = skipped + 1;
                },
            }
            j += 1;
        }
        assert(p_all.subrange(0, pending@.len() as int) =~= p_all);
        (table, skipped)
    }

    /// Removes every record.
    pub fn clear_all(&mut self)
        ensures
            final(self).wf(),
            final(self).file_records() == Seq::<FileStateView>::empty(),
            final(self).pending_records() == Seq::<PendingSyncView>::empty(),
    {
        self.files = Vec::new();
        self.pending = Vec::new();
        assert(self.file_records() =~= Seq::<FileStateView>::empty());
        assert(self.pending_records() =~= Seq::<PendingSyncView>::empty());
    }
}

/// The number of file records of one category.
#[derive(Debug, PartialEq, Eq)]
pub struct CategoryCount {
    pub category: String,
    pub count: usize,
}

/// Figures on what the table holds.
#[derive(Debug, PartialEq, Eq)]
pub struct SyncStats {
    pub total_files: usize,
    pub total_size: u64,
    pub pending_syncs: usize,
    pub by_category: Vec<CategoryCount>,
}

/// `category` has an entry among `counts`.
pub open spec fn listed(counts: Seq<CategoryCount>, category: Seq<char>) -> bool {
    exists|w: int| 0 <= w < counts.len() && counts[w].category@ == category
}

/// `counts` holds one entry for each category that occurs among `records`,
/// and no other; each entry holds the number of records of its category.
pub open spec fn counts_by_category(counts: Seq<CategoryCount>, records: Seq<FileStateView>) -> bool {
    &&& forall|a: int, b: int|
        0 <= a < b < counts.len() ==> counts[a].category@ != counts[b].category@
    &&& forall|e: int|
        0 <= e < counts.len() ==> (#[trigger] counts[e]).count > 0 && counts[e].count
            == count_category(records, counts[e].category@)
    &&& forall|k: int|
        0 <= k < records.len() ==> listed(counts, #[trigger] records[k].file_category)
}

/// No more records are of a category than there are records.
pub proof fn lemma_count_category_bound(records: Seq<FileStateView>, category: Seq<char>)
    ensures
        count_category(records, category) <= records.len(),
    decreases records.len(),
{
    if records.len() > 0 {
        lemma_count_category_bound(records.drop_last(), category);
    }
}

/// A category of which no record is counts zero.
pub proof fn lemma_count_category_zero(records: Seq<FileStateView>, category: Seq<char>)
    requires
        forall|k: int| 0 <= k < records.len() ==> records[k].file_category != category,
    ensures
        count_category(records, category) == 0,
    decreases records.len(),
{
    if records.len() > 0 {
        assert(records.last() == records[records.len() - 1]);
        assert forall|k: int| 0 <= k < records.drop_last().len() implies records.drop_last()[k].file_category
            != category by {
            assert(records.drop_last()[k] == records[k]);
        }
        lemma_count_category_zero(records.drop_last(), category);
    }
}

/// The index of the entry of `category`.
fn category_index(counts: &Vec<CategoryCount>, category: &str) -> (r: Option<usize>)
    ensures
        match r {
            Some(e) => e < counts@.len() && counts@[e as int].category@ == category@,
            None => !listed(counts@, category@),
        },
{
    let n: usize = counts.len();
    let mut e: usize = 0;
    while e < n
        invariant
            n == counts@.len(),
            e <= n,
            forall|w: int| 0 <= w < e ==> counts@[w].category@ != category@,
        decreases n - e,
    {
        if str_eq(counts[e].category.as_str(), category) {
            return Some(e);
        }
        e += 1;
    }
    None
}

/// Whether the records hold, for `path`, a file record with the hash `hash`.
pub open spec fn is_synced(records: Seq<FileStateView>, path: Seq<char>, hash: Seq<char>) -> bool {
    match find_file(records, path) {
        Some(r) => r.hash == hash,
        None => false,
    }
}

} // verus!
