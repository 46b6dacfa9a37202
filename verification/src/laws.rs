//! What holds of the engine over several steps: the properties that its
//! callers rely on, each proved from the decisions and the table's model.

use vstd::prelude::*;
use crate::classifier::FileType;
use crate::config::{find_route, RouteView};
use crate::drive::DriveInfoView;
use crate::record::{
    drop_pending, file_paths, find_file, find_pending, occurrences, pending_for_drive,
    pending_paths, FileStateView, PendingSyncView,
};
use crate::state::{is_synced, lemma_drop_pending, lemma_put_file, lemma_put_pending};
use crate::summary::{count_kind, OutcomeKind, SyncSummary};
use crate::sync::{
    copy_is_whole, decide_routed, destination, files_after_copy, pending_after,
    pending_after_copy, reachable_mount, stamped, CopyOutcome, InventoryView,
};

verus! {

/// Where no path occurs twice, a path occurs once if it occurs at all.
pub proof fn lemma_occurrences(paths: Seq<Seq<char>>, path: Seq<char>)
    requires
        paths.no_duplicates(),
    ensures
        occurrences(paths, path) == if paths.contains(path) {
            1nat
        } else {
            0nat
        },
    decreases paths.len(),
{
    if paths.len() > 0 {
        let init = paths.drop_last();
        let n = paths.len() - 1;
        assert(paths.last() == paths[n]);
        assert forall|i: int, j: int|
            0 <= i < init.len() && 0 <= j < init.len() && i != j implies init[i] != init[j] by {
            assert(init[i] == paths[i] && init[j] == paths[j]);
        }
        lemma_occurrences(init, path);
        if init.contains(path) {
            let i = choose|i: int| 0 <= i < init.len() && init[i] == path;
            assert(paths[i] == path);
        }
        if paths.contains(path) && paths.last() != path {
            let i = choose|i: int| 0 <= i < paths.len() && paths[i] == path;
            assert(init[i] == path);
        }
    }
}

/// The files that wait for a drive are among the files that wait: none of
/// them has a path that no pending record has.
pub proof fn lemma_pending_for_drive_paths(
    records: Seq<PendingSyncView>,
    drive: Seq<char>,
    path: Seq<char>,
)
    requires
        pending_paths(pending_for_drive(records, drive)).contains(path),
    ensures
        pending_paths(records).contains(path),
    decreases records.len(),
{
    let chosen = pending_for_drive(records, drive);
    let i = choose|i: int|
        0 <= i < pending_paths(chosen).len() && pending_paths(chosen)[i] == path;
    let n = records.len() - 1;
    if records.len() > 0 {
        let init = records.drop_last();
        let inner = pending_for_drive(init, drive);
        if records.last().target_drive == drive && i == inner.len() {
            assert(chosen[i] == records[n]);
            assert(pending_paths(records)[n] == path);
        } else {
            assert(pending_paths(inner)[i] == path);
            lemma_pending_for_drive_paths(init, drive, path);
            let j = choose|j: int|
                0 <= j < pending_paths(init).len() && pending_paths(init)[j] == path;
            assert(pending_paths(records)[j] == path);
        }
    }
}

/// No path has a file record and a pending record that both hold the same
/// content hash: a file does not wait with the content with which it was
/// copied.
pub open spec fn exclusive(files: Seq<FileStateView>, pending: Seq<PendingSyncView>) -> bool {
    forall|p: Seq<char>|
        (#[trigger] find_file(files, p)) is Some && find_pending(pending, p) is Some
            ==> find_file(files, p)->0.hash != find_pending(pending, p)->0.hash
}

/// A file that is found to need a copy, is copied whole, and is then decided
/// on again with the same content is reported as already synced, whatever
/// drives are connected by then. After the copy the table holds exactly one
/// file record of the file's path, and no pending record of it.
pub proof fn law_sync_is_idempotent(
    root: Seq<char>,
    routes: Seq<RouteView>,
    files: Seq<FileStateView>,
    pending: Seq<PendingSyncView>,
    path: Seq<char>,
    file_type: FileType,
    size: u64,
    hash: Seq<char>,
    inventory: InventoryView,
    later_inventory: InventoryView,
    first: u64,
    copied: u64,
    second: u64,
)
    requires
        file_paths(files).no_duplicates(),
        pending_paths(pending).no_duplicates(),
        decide_routed(root, routes, files, pending, path, file_type, size, hash, inventory, first)
            is Copy,
    ensures
        ({
            let d = decide_routed(
                root,
                routes,
                files,
                pending,
                path,
                file_type,
                size,
                hash,
                inventory,
                first,
            );
            let outcome = CopyOutcome::Copied(size);
            let files_then = files_after_copy(files, d->Copy_0, outcome, copied);
            let pending_then = pending_after_copy(pending_after(pending, d), d->Copy_0, outcome);
            &&& decide_routed(
                root,
                routes,
                files_then,
                pending_then,
                path,
                file_type,
                size,
                hash,
                later_inventory,
                second,
            ) is AlreadySynced
            &&& occurrences(file_paths(files_then), path) == 1
            &&& occurrences(pending_paths(pending_then), path) == 0
        }),
{
    let d = decide_routed(
        root,
        routes,
        files,
        pending,
        path,
        file_type,
        size,
        hash,
        inventory,
        first,
    );
    let record = d->Copy_0;
    let outcome = CopyOutcome::Copied(size);
    assert(copy_is_whole(record, outcome));
    let files_then = files_after_copy(files, record, outcome, copied);
    let pending_then = pending_after_copy(pending, record, outcome);
    lemma_put_file(files, stamped(record, copied));
    lemma_drop_pending(pending, path);
    lemma_occurrences(file_paths(files_then), path);
    lemma_occurrences(pending_paths(pending_then), path);
}

/// A file that is decided on while its drive cannot be reached, once and
/// then again, has exactly one pending record after each of the two
/// decisions. The second decision adds no record, and the record keeps the
/// time of the first. Where the file is of the same kind, size and content
/// the second time, the second decision changes nothing.
pub proof fn law_pending_is_not_duplicated(
    root: Seq<char>,
    routes: Seq<RouteView>,
    files: Seq<FileStateView>,
    pending: Seq<PendingSyncView>,
    path: Seq<char>,
    file_type: FileType,
    size: u64,
    hash: Seq<char>,
    inventory: InventoryView,
    first: u64,
    later_type: FileType,
    later_size: u64,
    later_hash: Seq<char>,
    later_inventory: InventoryView,
    second: u64,
)
    requires
        pending_paths(pending).no_duplicates(),
        decide_routed(root, routes, files, pending, path, file_type, size, hash, inventory, first)
            is Pending,
        decide_routed(
            root,
            routes,
            files,
            pending_after(
                pending,
                decide_routed(
                    root,
                    routes,
                    files,
                    pending,
                    path,
                    file_type,
                    size,
                    hash,
                    inventory,
                    first,
                ),
            ),
            path,
            later_type,
            later_size,
            later_hash,
            later_inventory,
            second,
        ) is Pending,
    ensures
        ({
            let once = pending_after(
                pending,
                decide_routed(
                    root,
                    routes,
                    files,
                    pending,
                    path,
                    file_type,
                    size,
                    hash,
                    inventory,
                    first,
                ),
            );
            let twice = pending_after(
                once,
                decide_routed(
                    root,
                    routes,
                    files,
                    once,
                    path,
                    later_type,
                    later_size,
                    later_hash,
                    later_inventory,
                    second,
                ),
            );
            &&& occurrences(pending_paths(once), path) == 1
            &&& occurrences(pending_paths(twice), path) == 1
            &&& twice.len() == once.len()
            &&& pending_paths(twice) == pending_paths(once)
            &&& find_pending(twice, path)->0.created_at == find_pending(once, path)->0.created_at
            &&& (later_type == file_type && later_size == size && later_hash == hash) ==> twice
                == once
        }),
{
    let d1 = decide_routed(
        root,
        routes,
        files,
        pending,
        path,
        file_type,
        size,
        hash,
        inventory,
        first,
    );
    let once = pending_after(pending, d1);
    let d2 = decide_routed(
        root,
        routes,
        files,
        once,
        path,
        later_type,
        later_size,
        later_hash,
        later_inventory,
        second,
    );
    let twice = pending_after(once, d2);
    lemma_put_pending(pending, d1->Pending_0);
    lemma_put_pending(once, d2->Pending_0);
    lemma_occurrences(pending_paths(once), path);
    lemma_occurrences(pending_paths(twice), path);
    assert(pending_paths(twice) =~= pending_paths(once));
    if later_type == file_type && later_size == size && later_hash == hash {
        assert(d2->Pending_0 == find_pending(once, path)->0);
        assert(twice =~= once);
    }
}

/// A file whose record holds another content hash than the file has now is
/// not reported as already synced. Where its drive can be reached it is to
/// be copied again, and once the copy is in place the file's record holds
/// the new hash; the table still holds one record of the path.
pub proof fn law_changed_content_is_copied_again(
    root: Seq<char>,
    routes: Seq<RouteView>,
    files: Seq<FileStateView>,
    pending: Seq<PendingSyncView>,
    path: Seq<char>,
    file_type: FileType,
    size: u64,
    hash: Seq<char>,
    inventory: InventoryView,
    now: u64,
    copied: u64,
)
    requires
        file_paths(files).no_duplicates(),
        find_file(files, path) is Some,
        find_file(files, path)->0.hash != hash,
    ensures
        ({
            let d = decide_routed(
                root,
                routes,
                files,
                pending,
                path,
                file_type,
                size,
                hash,
                inventory,
                now,
            );
            &&& !(d is AlreadySynced)
            &&& (file_type != FileType::Unknown && find_route(routes, file_type.category()) is Some
                && inventory is Drives && reachable_mount(
                find_route(routes, file_type.category())->0.drive,
                inventory->Drives_0,
            ) is Some) ==> d is Copy
            &&& d is Copy ==> {
                let files_then = files_after_copy(
                    files,
                    d->Copy_0,
                    CopyOutcome::Copied(size),
                    copied,
                );
                &&& find_file(files_then, path) is Some
                &&& find_file(files_then, path)->0.hash == hash
                &&& find_file(files_then, path)->0.last_synced == copied
                &&& occurrences(file_paths(files_then), path) == 1
                &&& files_then.len() == files.len()
            }
        }),
{
    let d = decide_routed(
        root,
        routes,
        files,
        pending,
        path,
        file_type,
        size,
        hash,
        inventory,
        now,
    );
    if d is Copy {
        let record = d->Copy_0;
        assert(copy_is_whole(record, CopyOutcome::Copied(size)));
        let files_then = files_after_copy(files, record, CopyOutcome::Copied(size), copied);
        lemma_put_file(files, stamped(record, copied));
        lemma_occurrences(file_paths(files_then), path);
    }
}

/// A file that waits for a drive, is of a kind that this drive takes, and
/// was not copied with the content it has now is to be copied to that drive
/// once the drive can be reached, and that is all the decision does. The
/// record that goes with the copy holds the file's content hash and size,
/// the drive, and the place below the drive's mount point. When the copy is
/// in place the table holds that record, stamped with the time of the
/// report, and the file waits no longer: no pending record of its path is
/// left, for this drive or any other, one pending record less is held, and
/// the files of other paths wait as before.
pub proof fn law_drain_copies_when_reached(
    root: Seq<char>,
    routes: Seq<RouteView>,
    files: Seq<FileStateView>,
    pending: Seq<PendingSyncView>,
    path: Seq<char>,
    file_type: FileType,
    size: u64,
    hash: Seq<char>,
    drives: Seq<DriveInfoView>,
    now: u64,
    copied: u64,
)
    requires
        file_paths(files).no_duplicates(),
        pending_paths(pending).no_duplicates(),
        find_pending(pending, path) is Some,
        file_type != FileType::Unknown,
        find_route(routes, file_type.category()) is Some,
        find_route(routes, file_type.category())->0.uuid == find_pending(
            pending,
            path,
        )->0.target_drive,
        reachable_mount(find_route(routes, file_type.category())->0.drive, drives) is Some,
        !is_synced(files, path, hash),
    ensures
        ({
            let drive = find_pending(pending, path)->0.target_drive;
            let mount = reachable_mount(
                find_route(routes, file_type.category())->0.drive,
                drives,
            )->0;
            let d = decide_routed(
                root,
                routes,
                files,
                pending,
                path,
                file_type,
                size,
                hash,
                InventoryView::Drives(drives),
                now,
            );
            let files_then = files_after_copy(files, d->Copy_0, CopyOutcome::Copied(size), copied);
            let pending_then = pending_after_copy(
                pending_after(pending, d),
                d->Copy_0,
                CopyOutcome::Copied(size),
            );
            &&& d is Copy
            &&& pending_after(pending, d) == pending
            &&& d->Copy_0.source_path == path
            &&& d->Copy_0.hash == hash
            &&& d->Copy_0.size == size
            &&& d->Copy_0.target_drive == drive
            &&& d->Copy_0.target_path == destination(mount, file_type.category(), path, root)
            &&& find_file(files_then, path) == Some(stamped(d->Copy_0, copied))
            &&& occurrences(file_paths(files_then), path) == 1
            &&& find_pending(pending_then, path) is None
            &&& !pending_paths(pending_for_drive(pending_then, drive)).contains(path)
            &&& pending_then.len() == pending.len() - 1
            &&& forall|p: Seq<char>|
                p != path ==> #[trigger] find_pending(pending_then, p) == find_pending(pending, p)
        }),
{
    let drive = find_pending(pending, path)->0.target_drive;
    let d = decide_routed(
        root,
        routes,
        files,
        pending,
        path,
        file_type,
        size,
        hash,
        InventoryView::Drives(drives),
        now,
    );
    let record = d->Copy_0;
    assert(copy_is_whole(record, CopyOutcome::Copied(size)));
    let files_then = files_after_copy(files, record, CopyOutcome::Copied(size), copied);
    let pending_then = pending_after_copy(pending, record, CopyOutcome::Copied(size));
    lemma_put_file(files, stamped(record, copied));
    lemma_occurrences(file_paths(files_then), path);
    lemma_drop_pending(pending, path);
    if pending_paths(pending_for_drive(pending_then, drive)).contains(path) {
        lemma_pending_for_drive_paths(pending_then, drive, path);
    }
}

/// A file that waits for a drive that cannot be reached goes on waiting for
/// it, and that is no failure. No pending record is added or removed, the
/// files of other paths wait as before, and the file's pending record still
/// names the drive and the time since which the file waits. Where the file
/// has the content, size and kind that its pending record holds, nothing
/// changes at all.
pub proof fn law_drain_waits_when_not_reached(
    root: Seq<char>,
    routes: Seq<RouteView>,
    files: Seq<FileStateView>,
    pending: Seq<PendingSyncView>,
    path: Seq<char>,
    file_type: FileType,
    size: u64,
    hash: Seq<char>,
    drives: Seq<DriveInfoView>,
    now: u64,
)
    requires
        pending_paths(pending).no_duplicates(),
        find_pending(pending, path) is Some,
        file_type != FileType::Unknown,
        find_route(routes, file_type.category()) is Some,
        find_route(routes, file_type.category())->0.uuid == find_pending(
            pending,
            path,
        )->0.target_drive,
        reachable_mount(find_route(routes, file_type.category())->0.drive, drives) is None,
        !is_synced(files, path, hash),
    ensures
        ({
            let waiting = find_pending(pending, path)->0;
            let d = decide_routed(
                root,
                routes,
                files,
                pending,
                path,
                file_type,
                size,
                hash,
                InventoryView::Drives(drives),
                now,
            );
            let after = pending_after(pending, d);
            &&& d is Pending
            &&& pending_paths(after) == pending_paths(pending)
            &&& find_pending(after, path) is Some
            &&& find_pending(after, path)->0.target_drive == waiting.target_drive
            &&& find_pending(after, path)->0.created_at == waiting.created_at
            &&& forall|p: Seq<char>|
                p != path ==> #[trigger] find_pending(after, p) == find_pending(pending, p)
            &&& (waiting.hash == hash && waiting.size == size && waiting.file_category
                == file_type.category()) ==> after == pending
        }),
{
    let waiting = find_pending(pending, path)->0;
    let d = decide_routed(
        root,
        routes,
        files,
        pending,
        path,
        file_type,
        size,
        hash,
        InventoryView::Drives(drives),
        now,
    );
    let record = d->Pending_0;
    let after = pending_after(pending, d);
    lemma_put_pending(pending, record);
    assert(pending_paths(after) =~= pending_paths(pending));
    if waiting.hash == hash && waiting.size == size && waiting.file_category
        == file_type.category() {
        assert(waiting.source_path == path);
        assert(record == waiting);
        assert(after =~= pending);
    }
}

/// A file that was copied with the content it has now is reported as
/// already synced, whatever drives are connected: nothing is to be copied,
/// and no pending record changes, not even one of the file's own path.
pub proof fn law_synced_file_is_left_alone(
    root: Seq<char>,
    routes: Seq<RouteView>,
    files: Seq<FileStateView>,
    pending: Seq<PendingSyncView>,
    path: Seq<char>,
    file_type: FileType,
    size: u64,
    hash: Seq<char>,
    inventory: InventoryView,
    now: u64,
)
    requires
        file_type != FileType::Unknown,
        find_route(routes, file_type.category()) is Some,
        is_synced(files, path, hash),
    ensures
        decide_routed(root, routes, files, pending, path, file_type, size, hash, inventory, now)
            is AlreadySynced,
        pending_after(
            pending,
            decide_routed(
                root,
                routes,
                files,
                pending,
                path,
                file_type,
                size,
                hash,
                inventory,
                now,
            ),
        ) == pending,
{
}

/// Removing the pending record of a file whose source is gone leaves no
/// pending record of its path, leaves the pending records of all other
/// paths as they were, and leaves no path twice.
pub proof fn law_dangling_pending_is_removed(pending: Seq<PendingSyncView>, path: Seq<char>)
    requires
        pending_paths(pending).no_duplicates(),
    ensures
        find_pending(drop_pending(pending, path), path) is None,
        occurrences(pending_paths(drop_pending(pending, path)), path) == 0,
        pending_paths(drop_pending(pending, path)).no_duplicates(),
        forall|p: Seq<char>|
            p != path ==> #[trigger] find_pending(drop_pending(pending, path), p)
                == find_pending(pending, p),
{
    lemma_drop_pending(pending, path);
    lemma_occurrences(pending_paths(drop_pending(pending, path)), path);
}

/// The counts of the five kinds add up to the number of outcomes.
pub proof fn lemma_counts_add_up(kinds: Seq<OutcomeKind>)
    ensures
        count_kind(kinds, OutcomeKind::Synced) + count_kind(kinds, OutcomeKind::Pending)
            + count_kind(kinds, OutcomeKind::AlreadySynced) + count_kind(
            kinds,
            OutcomeKind::Skipped,
        ) + count_kind(kinds, OutcomeKind::Failed) == kinds.len(),
    decreases kinds.len(),
{
    if kinds.len() > 0 {
        lemma_counts_add_up(kinds.drop_last());
    }
}

/// A summary that counts the outcome of every file of a batch, each under
/// its kind, accounts for exactly as many files as the batch holds.
pub proof fn law_summary_accounts_for_every_file(summary: SyncSummary, kinds: Seq<OutcomeKind>)
    requires
        summary.counts(kinds),
    ensures
        summary.total_spec() == kinds.len(),
{
    lemma_counts_add_up(kinds);
}

/// A decision keeps apart what is copied and what waits: where no path had
/// a file record and a pending record of the same content hash before, none
/// has after.
pub proof fn law_decision_keeps_exclusion(
    root: Seq<char>,
    routes: Seq<RouteView>,
    files: Seq<FileStateView>,
    pending: Seq<PendingSyncView>,
    path: Seq<char>,
    file_type: FileType,
    size: u64,
    hash: Seq<char>,
    inventory: InventoryView,
    now: u64,
)
    requires
        file_paths(files).no_duplicates(),
        pending_paths(pending).no_duplicates(),
        exclusive(files, pending),
    ensures
        exclusive(
            files,
            pending_after(
                pending,
                decide_routed(
                    root,
                    routes,
                    files,
                    pending,
                    path,
                    file_type,
                    size,
                    hash,
                    inventory,
                    now,
                ),
            ),
        ),
{
    let d = decide_routed(
        root,
        routes,
        files,
        pending,
        path,
        file_type,
        size,
        hash,
        inventory,
        now,
    );
    let after = pending_after(pending, d);
    if d is Pending {
        let record = d->Pending_0;
        lemma_put_pending(pending, record);
        assert forall|p: Seq<char>|
            (#[trigger] find_file(files, p)) is Some && find_pending(after, p) is Some implies find_file(
            files,
            p,
        )->0.hash != find_pending(after, p)->0.hash by {
            if p != path {
                assert(find_pending(after, p) == find_pending(pending, p));
            }
        }
    }
}

/// Recording a copy keeps apart what is copied and what waits: where no
/// path had a file record and a pending record of the same content hash
/// before, none has after.
pub proof fn law_copy_keeps_exclusion(
    files: Seq<FileStateView>,
    pending: Seq<PendingSyncView>,
    record: FileStateView,
    outcome: CopyOutcome,
    now: u64,
)
    requires
        file_paths(files).no_duplicates(),
        pending_paths(pending).no_duplicates(),
        exclusive(files, pending),
    ensures
        exclusive(
            files_after_copy(files, record, outcome, now),
            pending_after_copy(pending, record, outcome),
        ),
{
    let files_then = files_after_copy(files, record, outcome, now);
    let pending_then = pending_after_copy(pending, record, outcome);
    if copy_is_whole(record, outcome) {
        lemma_put_file(files, stamped(record, now));
        lemma_drop_pending(pending, record.source_path);
        assert forall|p: Seq<char>|
            (#[trigger] find_file(files_then, p)) is Some && find_pending(pending_then, p)
                is Some implies find_file(files_then, p)->0.hash != find_pending(
            pending_then,
            p,
        )->0.hash by {
            if p != record.source_path {
                assert(find_file(files_then, p) == find_file(files, p));
                assert(find_pending(pending_then, p) == find_pending(pending, p));
            }
        }
    }
}

} // verus!
