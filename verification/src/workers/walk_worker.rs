//! The walk worker: what it does with each entry of the source tree, and the
//! counts it reports while scanning.
use crate::filters::{join_path, spec_dir_pruned, spec_passes, views, Filters};
use crate::progress::{ProgressMessage, WalkInfo};
use crate::workers::progress_worker::{next_action, next_state, ActionView, MessageView, WorkerState};
use vstd::prelude::*;

verus! {

/// Number of entries between two `Walk` progress snapshots
pub const WALK_UPDATE_INTERVAL: u64 = 32;

/// What the walk does with one entry of the source tree.
#[derive(Debug, Clone, Copy, PartialEq, Eq, Structural)]
pub enum WalkDecision {
    /// A directory to descend into.
    Descend,
    /// A directory pruned by the filters.
    PruneDir,
    /// A file (or symlink) to synchronize.
    SyncFile,
    /// A file (or symlink) skipped by the filters.
    SkipFile,
}

/// What the walk does with an entry, from the filters' view of it.
pub open spec fn spec_decide(f: crate::filters::FiltersView, is_dir: bool, path: Seq<char>) -> WalkDecision {
    if is_dir {
        if spec_dir_pruned(f, path) {
            WalkDecision::PruneDir
        } else {
            WalkDecision::Descend
        }
    } else if spec_passes(f, path) {
        WalkDecision::SyncFile
    } else {
        WalkDecision::SkipFile
    }
}

/// What the walk does with the entry at `rel_path` (given by its
/// components): directories are descended into unless pruned, files are
/// synchronized if they pass the filters.
pub fn decide(filters: &Filters, is_dir: bool, rel_path: &[String]) -> (r: WalkDecision)
    ensures
        r == spec_decide(filters@, is_dir, join_path(views(rel_path@))),
{
    if is_dir {
        if filters.dir_pruned(rel_path) {
            WalkDecision::PruneDir
        } else {
            WalkDecision::Descend
        }
    } else if filters.passes(rel_path) {
        WalkDecision::SyncFile
    } else {
        WalkDecision::SkipFile
    }
}

/// The counts of the scan so far.
#[derive(Debug, Clone, Copy, PartialEq, Eq)]
pub struct WalkCounts {
    /// Entries seen (files and directories)
    pub seen: u64,
    /// Files to synchronize
    pub num_files: u64,
    /// Total size of the files to synchronize, in bytes
    pub total_size: usize,
    /// Files skipped by the filters
    pub excluded_files: u64,
    /// Directories pruned by the filters
    pub excluded_dirs: u64,
}

/// The counts after one more entry, decided as `d` (`size` is the size of
/// a file to synchronize).
pub open spec fn spec_record(c: WalkCounts, d: WalkDecision, size: usize) -> WalkCounts {
    let c = WalkCounts { seen: (c.seen + 1) as u64, ..c };
    match d {
        WalkDecision::Descend => c,
        WalkDecision::PruneDir => WalkCounts { excluded_dirs: (c.excluded_dirs + 1) as u64, ..c },
        WalkDecision::SyncFile => WalkCounts {
            num_files: (c.num_files + 1) as u64,
            total_size: (c.total_size + size) as usize,
            ..c
        },
        WalkDecision::SkipFile => WalkCounts {
            excluded_files: (c.excluded_files + 1) as u64,
            ..c
        },
    }
}

/// Whether one more entry can be counted without overflow.
pub open spec fn spec_can_record(c: WalkCounts, d: WalkDecision, size: usize) -> bool {
    &&& c.seen < u64::MAX
    &&& d == WalkDecision::PruneDir ==> c.excluded_dirs < u64::MAX
    &&& d == WalkDecision::SyncFile ==> c.num_files < u64::MAX && c.total_size + size
        <= usize::MAX
    &&& d == WalkDecision::SkipFile ==> c.excluded_files < u64::MAX
}

/// The counts never report more files and skipped entries than were seen.
pub open spec fn counts_consistent(c: WalkCounts) -> bool {
    c.num_files + c.excluded_files + c.excluded_dirs <= c.seen
}

impl WalkCounts {
    /// Counts of an empty scan.
    pub fn new() -> (r: WalkCounts)
        ensures
            r == (WalkCounts {
                seen: 0,
                num_files: 0,
                total_size: 0,
                excluded_files: 0,
                excluded_dirs: 0,
            }),
    {
        WalkCounts { seen: 0, num_files: 0, total_size: 0, excluded_files: 0, excluded_dirs: 0 }
    }

    /// Whether one more entry can be counted (see `spec_can_record`).
    pub fn can_record(&self, decision: WalkDecision, size: usize) -> (r: bool)
        ensures
            r == spec_can_record(*self, decision, size),
    {
        self.seen < u64::MAX && match decision {
            WalkDecision::Descend => true,
            WalkDecision::PruneDir => self.excluded_dirs < u64::MAX,
            WalkDecision::SyncFile => self.num_files < u64::MAX && size <= usize::MAX
                - self.total_size,
            WalkDecision::SkipFile => self.excluded_files < u64::MAX,
        }
    }

    /// Counts one more entry, decided as `decision`; `size` is the size of a
    /// file to synchronize (it is not used otherwise).
    pub fn record(&mut self, decision: WalkDecision, size: usize)
        requires
            spec_can_record(*old(self), decision, size),
        ensures
            *final(self) == spec_record(*old(self), decision, size),
    {
        match decision {
            WalkDecision::Descend => {},
            WalkDecision::PruneDir => {
                self.excluded_dirs = self.excluded_dirs + 1;
            },
            WalkDecision::SyncFile => {
                self.num_files = self.num_files + 1;
                self.total_size = self.total_size + size;
            },
            WalkDecision::SkipFile => {
                self.excluded_files = self.excluded_files + 1;
            },
        }
        self.seen = self.seen + 1;
    }

    /// Whether a snapshot is due: every `WALK_UPDATE_INTERVAL` entries.
    pub fn snapshot_due(&self) -> (r: bool)
        ensures
            r == (self.seen % WALK_UPDATE_INTERVAL == 0),
    {
        self.seen % WALK_UPDATE_INTERVAL == 0
    }

    /// The messages that end a scan: one snapshot, so that the scanning
    /// line is displayed at least once even on small trees, then the same
    /// counts marked as finished, so that the scanning line can be erased.
    pub fn final_snapshots(&self) -> (r: Vec<ProgressMessage>)
        ensures
            r@.len() == 2,
            r@[0]@ == snapshot_view(*self, false),
            r@[1]@ == snapshot_view(*self, true),
    {
        let mut r = Vec::new();
        r.push(self.snapshot(false));
        r.push(self.snapshot(true));
        r
    }

    /// The `Walk` message that reports these counts.
    pub fn snapshot(&self, finished: bool) -> (r: ProgressMessage)
        ensures
            r@ == snapshot_view(*self, finished),
    {
        ProgressMessage::Walk {
            seen: self.seen,
            num_files: self.num_files,
            total_size: self.total_size,
            excluded_files: self.excluded_files,
            excluded_dirs: self.excluded_dirs,
            finished,
        }
    }
}

/// The view of the `Walk` message that reports counts `c`.
pub open spec fn snapshot_view(c: WalkCounts, finished: bool) -> MessageView {
    MessageView::Walk {
        seen: c.seen,
        num_files: c.num_files,
        total_size: c.total_size,
        excluded_files: c.excluded_files,
        excluded_dirs: c.excluded_dirs,
        finished,
    }
}

/// Snapshots carry absolute counts: whatever the progress worker knew
/// before, once it handles a snapshot its statistics hold the walk's counts,
/// and it reports them as the scanning progress.
pub proof fn lemma_snapshot_sets_stats(s: WorkerState, c: WalkCounts, finished: bool, now_ms: u64)
    ensures
        next_state(s, snapshot_view(c, finished), now_ms).stats.num_files == c.num_files,
        next_state(s, snapshot_view(c, finished), now_ms).stats.total_size == c.total_size,
        next_state(s, snapshot_view(c, finished), now_ms).stats.excluded_files
            == c.excluded_files,
        next_state(s, snapshot_view(c, finished), now_ms).stats.excluded_dirs == c.excluded_dirs,
        next_action(s, snapshot_view(c, finished), now_ms) == ActionView::Scanning(
            WalkInfo {
                seen: c.seen,
                num_files: c.num_files,
                excluded_files: c.excluded_files,
                excluded_dirs: c.excluded_dirs,
                finished,
            },
        ),
{
}

/// Each entry is counted by its kind: a pruned directory adds one to the
/// pruned directories, a skipped file one to the skipped files, a file to
/// synchronize one to the files and its size to the total size, and a
/// directory that is descended into only to the entries seen; every other
/// count stays as it was.
pub proof fn lemma_record_counts_by_kind(c: WalkCounts, d: WalkDecision, size: usize)
    requires
        spec_can_record(c, d, size),
    ensures
        spec_record(c, d, size).seen == c.seen + 1,
        spec_record(c, d, size).excluded_dirs == c.excluded_dirs + if d
            == WalkDecision::PruneDir {
            1int
        } else {
            0int
        },
        spec_record(c, d, size).excluded_files == c.excluded_files + if d
            == WalkDecision::SkipFile {
            1int
        } else {
            0int
        },
        spec_record(c, d, size).num_files == c.num_files + if d == WalkDecision::SyncFile {
            1int
        } else {
            0int
        },
        spec_record(c, d, size).total_size == c.total_size + if d == WalkDecision::SyncFile {
            size as int
        } else {
            0int
        },
{
}

/// Every entry counted is seen: the counts of files to synchronize, of
/// skipped files and of pruned directories never add up to more than the
/// entries seen, and each recorded entry adds one to exactly one of them,
/// or to none for a directory that is descended into.
pub proof fn lemma_counts_consistent(c: WalkCounts, d: WalkDecision, size: usize)
    requires
        counts_consistent(c),
        spec_can_record(c, d, size),
    ensures
        counts_consistent(spec_record(c, d, size)),
        spec_record(c, d, size).seen == c.seen + 1,
        spec_record(c, d, size).num_files + spec_record(c, d, size).excluded_files + spec_record(
            c,
            d,
            size,
        ).excluded_dirs == c.num_files + c.excluded_files + c.excluded_dirs + if d
            == WalkDecision::Descend {
            0int
        } else {
            1int
        },
{
}

/// A directory is never synchronized as a file, and a file is never
/// descended into; a file that the filters let through is synchronized, and
/// a directory that matches an exclude pattern is pruned.
pub proof fn lemma_decide_follows_filters(
    f: crate::filters::FiltersView,
    is_dir: bool,
    path: Seq<char>,
)
    ensures
        is_dir ==> (spec_decide(f, is_dir, path) == WalkDecision::Descend || spec_decide(
            f,
            is_dir,
            path,
        ) == WalkDecision::PruneDir),
        !is_dir ==> (spec_decide(f, is_dir, path) == WalkDecision::SyncFile) == spec_passes(
            f,
            path,
        ),
        is_dir ==> (spec_decide(f, is_dir, path) == WalkDecision::PruneDir) == spec_dir_pruned(
            f,
            path,
        ),
{
}

} // verus!
