//! Outcome counters of a batch synchronization.

use vstd::prelude::*;

verus! {

/// The ways in which the synchronization of one file can end.
#[derive(Debug, Clone, Copy, PartialEq, Eq, Structural)]
pub enum OutcomeKind {
    Synced,
    Pending,
    AlreadySynced,
    Skipped,
    Failed,
}

/// The number of outcomes of the kind `kind`.
pub open spec fn count_kind(kinds: Seq<OutcomeKind>, kind: OutcomeKind) -> nat
    decreases kinds.len(),
{
    if kinds.len() == 0 {
        0
    } else {
        count_kind(kinds.drop_last(), kind) + if kinds.last() == kind {
            1nat
        } else {
            0nat
        }
    }
}

/// Counts of per-file outcomes gathered over one batch.
#[derive(Debug, Clone, Copy, PartialEq, Eq)]
pub struct SyncSummary {
    pub synced: usize,
    pub pending: usize,
    pub already_synced: usize,
    pub skipped: usize,
    pub failed: usize,
}

impl Default for SyncSummary {
    fn default() -> (s: SyncSummary)
        ensures
            s.synced == 0,
            s.pending == 0,
            s.already_synced == 0,
            s.skipped == 0,
            s.failed == 0,
    {
        SyncSummary { synced: 0, pending: 0, already_synced: 0, skipped: 0, failed: 0 }
    }
}

impl SyncSummary {
    /// The number of files the summary accounts for, as a mathematical
    /// integer.
    pub open spec fn total_spec(&self) -> int {
        self.synced + self.pending + self.already_synced + self.skipped + self.failed
    }

    /// The summary counts the outcomes `kinds`, each under its kind.
    pub open spec fn counts(&self, kinds: Seq<OutcomeKind>) -> bool {
        &&& self.synced == count_kind(kinds, OutcomeKind::Synced)
        &&& self.pending == count_kind(kinds, OutcomeKind::Pending)
        &&& self.already_synced == count_kind(kinds, OutcomeKind::AlreadySynced)
        &&& self.skipped == count_kind(kinds, OutcomeKind::Skipped)
        &&& self.failed == count_kind(kinds, OutcomeKind::Failed)
    }

    /// The number of files the summary accounts for.
    pub fn total(&self) -> (n: usize)
        requires
            self.total_spec() <= usize::MAX,
        ensures
            n == self.total_spec(),
    {
        self.synced + self.pending + self.already_synced + self.skipped + self.failed
    }

    /// The summary with one more file counted under `kind`.
    pub open spec fn with_one_more(&self, kind: OutcomeKind) -> (int, int, int, int, int) {
        (
            self.synced + if kind == OutcomeKind::Synced {
                1int
            } else {
                0int
            },
            self.pending + if kind == OutcomeKind::Pending {
                1int
            } else {
                0int
            },
            self.already_synced + if kind == OutcomeKind::AlreadySynced {
                1int
            } else {
                0int
            },
            self.skipped + if kind == OutcomeKind::Skipped {
                1int
            } else {
                0int
            },
            self.failed + if kind == OutcomeKind::Failed {
                1int
            } else {
                0int
            },
        )
    }

    /// Counts one more file, under the kind of its outcome.
    pub fn record(&mut self, kind: OutcomeKind)
        requires
            old(self).total_spec() < usize::MAX,
        ensures
            (
                final(self).synced as int,
                final(self).pending as int,
                final(self).already_synced as int,
                final(self).skipped as int,
                final(self).failed as int,
            ) == old(self).with_one_more(kind),
    {
        match kind {
            OutcomeKind::Synced => {
                self.synced = self.synced + 1;
            },
            OutcomeKind::Pending => {
                self.pending = self.pending + 1;
            },
            OutcomeKind::AlreadySynced => {
                self.already_synced = self.already_synced + 1;
            },
            OutcomeKind::Skipped => {
                self.skipped = self.skipped + 1;
            },
            OutcomeKind::Failed => {
                self.failed = self.failed + 1;
            },
        }
    }

    /// The summary of a batch whose files ended as `kinds` tells.
    pub fn tally(kinds: &Vec<OutcomeKind>) -> (s: SyncSummary)
        ensures
            s.counts(kinds@),
            s.total_spec() == kinds@.len(),
    {
        let mut s = SyncSummary::default();
        let n: usize = kinds.len();
        let mut i: usize = 0;
        assert(kinds@.subrange(0, 0) =~= Seq::<OutcomeKind>::empty());
        while i < n
            invariant
                n == kinds@.len(),
                i <= n,
                s.counts(kinds@.subrange(0, i as int)),
                s.total_spec() == i,
            decreases n - i,
        {
            assert(kinds@.subrange(0, i + 1).drop_last() =~= kinds@.subrange(0, i as int));
            s.record(kinds[i]);
            i += 1;
        }
        assert(kinds@.subrange(0, n as int) =~= kinds@);
        s
    }
}

} // verus!
