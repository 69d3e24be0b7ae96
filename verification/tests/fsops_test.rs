use rusync::entry::{entry_status, EntryStatus};
use rusync::fsops::{link_outcome, needs_copy, DestLink, DirCache, FileState};
use rusync::sync::SyncOutcome;

fn state(size: u64, modified_ns: i128) -> FileState {
    FileState { size, modified_ns }
}

#[test]
fn missing_destination_is_copied() {
    assert!(needs_copy(&state(10, 5), &None));
}

#[test]
fn older_destination_is_copied() {
    assert!(needs_copy(&state(10, 5), &Some(state(10, 4))));
}

#[test]
fn different_size_is_copied() {
    assert!(needs_copy(&state(10, 5), &Some(state(11, 9))));
}

#[test]
fn same_size_and_newer_destination_is_up_to_date() {
    assert!(!needs_copy(&state(10, 5), &Some(state(10, 5))));
    assert!(!needs_copy(&state(10, 5), &Some(state(10, 6))));
}

#[test]
fn parent_directories_are_created_once_in_a_row() {
    let mut cache = DirCache::new();
    let docs = vec![String::from("docs")];
    let sub = vec![String::from("docs"), String::from("sub")];
    assert!(cache.needs_create(&docs));
    cache.remember(&docs);
    assert!(!cache.needs_create(&docs));
    assert!(cache.needs_create(&sub));
    cache.remember(&sub);
    assert!(cache.needs_create(&docs));
}

#[test]
fn entry_status_follows_links() {
    assert_eq!(
        entry_status(None, true),
        EntryStatus { exists: false, is_link: None }
    );
    assert_eq!(
        entry_status(Some(false), false),
        EntryStatus { exists: true, is_link: Some(false) }
    );
    // A broken symlink does not exist, but is a link:
    assert_eq!(
        entry_status(Some(true), false),
        EntryStatus { exists: false, is_link: Some(true) }
    );
    assert_eq!(
        entry_status(Some(true), true),
        EntryStatus { exists: true, is_link: Some(true) }
    );
}

#[test]
fn symlinks_are_created_updated_or_kept_but_never_replace_other_paths() {
    assert_eq!(link_outcome(DestLink::Missing), Some(SyncOutcome::SymlinkCreated));
    assert_eq!(link_outcome(DestLink::SameTarget), Some(SyncOutcome::UpToDate));
    assert_eq!(link_outcome(DestLink::OtherTarget), Some(SyncOutcome::SymlinkUpdated));
    assert_eq!(link_outcome(DestLink::NotALink), None);
}
