//! sync
//!
//! Options of a synchronization and the statistics it gathers.
use crate::filters::Filters;
use vstd::prelude::*;

verus! {

/// What the synchronization of one entry did.
#[derive(Debug, Clone, Copy, PartialEq, Eq, Structural)]
pub enum SyncOutcome {
    /// The file was copied.
    FileCopied,
    /// A symlink that pointed elsewhere was made to point to its source's target.
    SymlinkUpdated,
    /// A symlink was created.
    SymlinkCreated,
    /// Nothing had to be done.
    UpToDate,
}

/// Statistics of a synchronization.
#[derive(Debug, Clone, Copy, PartialEq, Eq)]
pub struct Stats {
    /// Number of files found by the scan (that passed the filters)
    pub num_files: u64,
    /// Total size of those files, in bytes
    pub total_size: usize,
    /// Files excluded by the filters
    pub excluded_files: u64,
    /// Directories pruned by the filters
    pub excluded_dirs: u64,
    /// Entries synchronized, whatever the outcome
    pub num_synced: u64,
    /// Entries that were already up to date
    pub up_to_date: u64,
    /// Files copied
    pub copied: u64,
    /// Symlinks created
    pub symlink_created: u64,
    /// Symlinks updated
    pub symlink_updated: u64,
    /// Entries that could not be synchronized
    pub errors: u64,
    /// Bytes copied
    pub total_transfered: u64,
    /// Duration of the synchronization, in whole seconds
    pub duration_secs: u64,
}

/// Statistics with every counter at zero.
pub open spec fn zero_stats() -> Stats {
    Stats {
        num_files: 0,
        total_size: 0,
        excluded_files: 0,
        excluded_dirs: 0,
        num_synced: 0,
        up_to_date: 0,
        copied: 0,
        symlink_created: 0,
        symlink_updated: 0,
        errors: 0,
        total_transfered: 0,
        duration_secs: 0,
    }
}

/// `stats` after one more entry was synchronized with `outcome`.
pub open spec fn stats_with_outcome(stats: Stats, outcome: SyncOutcome) -> Stats {
    let s = Stats { num_synced: (stats.num_synced + 1) as u64, ..stats };
    match outcome {
        SyncOutcome::FileCopied => Stats { copied: (s.copied + 1) as u64, ..s },
        SyncOutcome::SymlinkUpdated => Stats { symlink_updated: (s.symlink_updated + 1) as u64, ..s },
        SyncOutcome::SymlinkCreated => Stats { symlink_created: (s.symlink_created + 1) as u64, ..s },
        SyncOutcome::UpToDate => Stats { up_to_date: (s.up_to_date + 1) as u64, ..s },
    }
}

impl Stats {
    /// Statistics with every counter at zero.
    pub fn new() -> (r: Stats)
        ensures
            r == zero_stats(),
    {
        Stats {
            num_files: 0,
            total_size: 0,
            excluded_files: 0,
            excluded_dirs: 0,
            num_synced: 0,
            up_to_date: 0,
            copied: 0,
            symlink_created: 0,
            symlink_updated: 0,
            errors: 0,
            total_transfered: 0,
            duration_secs: 0,
        }
    }

    /// Whether one more outcome can be counted without overflow.
    pub open spec fn can_add_outcome(&self) -> bool {
        &&& self.num_synced < u64::MAX
        &&& self.copied < u64::MAX
        &&& self.symlink_updated < u64::MAX
        &&& self.symlink_created < u64::MAX
        &&& self.up_to_date < u64::MAX
    }

    /// Counts one more synchronized entry.
    pub fn add_outcome(&mut self, outcome: &SyncOutcome)
        requires
            old(self).can_add_outcome(),
        ensures
            *final(self) == stats_with_outcome(*old(self), *outcome),
    {
        self.num_synced = self.num_synced + 1;
        match outcome {
            SyncOutcome::FileCopied => self.copied = self.copied + 1,
            SyncOutcome::SymlinkUpdated => self.symlink_updated = self.symlink_updated + 1,
            SyncOutcome::SymlinkCreated => self.symlink_created = self.symlink_created + 1,
            SyncOutcome::UpToDate => self.up_to_date = self.up_to_date + 1,
        }
    }

    /// Counts one more entry that could not be synchronized.
    pub fn add_error(&mut self)
        requires
            old(self).errors < u64::MAX,
        ensures
            *final(self) == (Stats { errors: (old(self).errors + 1) as u64, ..*old(self) }),
    {
        self.errors = self.errors + 1;
    }
}

/// Options of a synchronization.
#[derive(Debug, Clone)]
pub struct SyncOptions {
    /// Whether to copy the permissions of the source entries
    pub preserve_permissions: bool,
    /// Which entries to synchronize
    pub filters: Filters,
}

impl Default for SyncOptions {
    fn default() -> (r: SyncOptions)
        ensures
            r.preserve_permissions,
            r.filters@ == crate::filters::no_filters(),
    {
        SyncOptions { preserve_permissions: true, filters: Filters::default() }
    }
}

} // verus!
