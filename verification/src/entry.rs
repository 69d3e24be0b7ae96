//! entry
//!
//! Whether an entry of the file system exists, and whether it is a symlink.
use vstd::prelude::*;

verus! {

/// What the synchronization needs to know of an entry besides its metadata.
#[derive(Debug, Clone, Copy, PartialEq, Eq, Structural)]
pub struct EntryStatus {
    /// Whether the entry exists; for a symlink, whether its target does
    /// (it is false for a broken symlink).
    pub exists: bool,
    /// Whether the entry is a symlink (`None` when its metadata could not be read).
    pub is_link: Option<bool>,
}

/// The status of an entry from what the file system said of it:
/// `own_metadata` is `None` when the metadata of the entry itself (not
/// following links) could not be read, else whether it is a symlink;
/// `target_exists` is whether following the path reaches an existing
/// entry, which only matters for a symlink.
pub open spec fn spec_entry_status(own_metadata: Option<bool>, target_exists: bool) -> EntryStatus {
    match own_metadata {
        None => EntryStatus { exists: false, is_link: None },
        Some(true) => EntryStatus { exists: target_exists, is_link: Some(true) },
        Some(false) => EntryStatus { exists: true, is_link: Some(false) },
    }
}

/// The status of an entry (see `spec_entry_status`).
pub fn entry_status(own_metadata: Option<bool>, target_exists: bool) -> (r: EntryStatus)
    ensures
        r == spec_entry_status(own_metadata, target_exists),
{
    match own_metadata {
        None => EntryStatus { exists: false, is_link: None },
        Some(true) => EntryStatus { exists: target_exists, is_link: Some(true) },
        Some(false) => EntryStatus { exists: true, is_link: Some(false) },
    }
}

} // verus!
