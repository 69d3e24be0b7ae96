//! fsops
//!
//! The decisions behind the file operations of a sync: whether a file must
//! be copied, what becomes of a symlink, and whether the destination
//! directories must be created.
use crate::filters::views;
use vstd::prelude::*;

verus! {

/// What the copy rule reads of a file: its size and its modification time
/// (in nanoseconds since the Unix epoch, negative before it).
#[derive(Debug, Clone, Copy, PartialEq, Eq, Structural)]
pub struct FileState {
    pub size: u64,
    pub modified_ns: i128,
}

/// Files are only copied if the destination is missing, if it exists but
/// is older than the source, or if source and destination have different
/// sizes.
pub open spec fn spec_needs_copy(src: FileState, dest: Option<FileState>) -> bool {
    match dest {
        None => true,
        Some(d) => src.modified_ns > d.modified_ns || src.size != d.size,
    }
}

/// Whether the source file must be copied over the destination (`None`
/// when the destination is missing).
pub fn needs_copy(src: &FileState, dest: &Option<FileState>) -> (r: bool)
    ensures
        r == spec_needs_copy(*src, *dest),
{
    match dest {
        None => true,
        Some(d) => src.modified_ns > d.modified_ns || src.size != d.size,
    }
}

/// The copy rule: a file is copied when the destination is missing, when
/// the destination is older than the source, or when their sizes differ in
/// either direction; a destination of the same size that is not older is up
/// to date.
pub proof fn lemma_copy_rule(src: FileState, dest: Option<FileState>)
    ensures
        dest is None ==> spec_needs_copy(src, dest),
        dest matches Some(d) && d.size != src.size ==> spec_needs_copy(src, dest),
        dest matches Some(d) && d.size < src.size ==> spec_needs_copy(src, dest),
        dest matches Some(d) && d.size > src.size ==> spec_needs_copy(src, dest),
        dest matches Some(d) && d.modified_ns < src.modified_ns ==> spec_needs_copy(src, dest),
        dest matches Some(d) && d.size == src.size && src.modified_ns <= d.modified_ns
            ==> !spec_needs_copy(src, dest),
{
}

/// What is at the destination of a symlink.
#[derive(Debug, Clone, Copy, PartialEq, Eq, Structural)]
pub enum DestLink {
    /// Nothing.
    Missing,
    /// A symlink to the same target as the source.
    SameTarget,
    /// A symlink to another target.
    OtherTarget,
    /// Something that is not a symlink.
    NotALink,
}

/// What syncing a symlink does: nothing when the destination already points
/// to the same target, replace a symlink to another target, create a missing
/// one; a destination that is not a symlink is never replaced (`None`).
pub open spec fn spec_link_outcome(dest: DestLink) -> Option<crate::sync::SyncOutcome> {
    match dest {
        DestLink::Missing => Some(crate::sync::SyncOutcome::SymlinkCreated),
        DestLink::SameTarget => Some(crate::sync::SyncOutcome::UpToDate),
        DestLink::OtherTarget => Some(crate::sync::SyncOutcome::SymlinkUpdated),
        DestLink::NotALink => None,
    }
}

/// What syncing a symlink does (see `spec_link_outcome`).
pub fn link_outcome(dest: DestLink) -> (r: Option<crate::sync::SyncOutcome>)
    ensures
        r == spec_link_outcome(dest),
{
    match dest {
        DestLink::Missing => Some(crate::sync::SyncOutcome::SymlinkCreated),
        DestLink::SameTarget => Some(crate::sync::SyncOutcome::UpToDate),
        DestLink::OtherTarget => Some(crate::sync::SyncOutcome::SymlinkUpdated),
        DestLink::NotALink => None,
    }
}

/// Whether two lists of path components are the same.
fn same_components(a: &Vec<String>, b: &[String]) -> (r: bool)
    ensures
        r == (views(a@) == views(b@)),
{
    if a.len() != b.len() {
        proof {
            assert(views(a@).len() != views(b@).len());
        }
        return false;
    }
    let mut i: usize = 0;
    while i < a.len()
        invariant
            i <= a.len() == b.len(),
            forall|j: int| 0 <= j < i ==> a@[j]@ == b@[j]@,
        decreases a.len() - i,
    {
        if a[i] != b[i] {
            proof {
                assert(views(a@)[i as int] != views(b@)[i as int]);
            }
            return false;
        }
        i = i + 1;
    }
    proof {
        assert(views(a@) =~= views(b@));
    }
    true
}

/// The destination directory created last, so that creating the parents of
/// an entry runs once per directory instead of once per file.
#[derive(Debug, Clone)]
pub struct DirCache {
    last_parent: Option<Vec<String>>,
}

impl View for DirCache {
    type V = Option<Seq<Seq<char>>>;

    closed spec fn view(&self) -> Option<Seq<Seq<char>>> {
        match self.last_parent {
            Some(p) => Some(views(p@)),
            None => None,
        }
    }
}

impl DirCache {
    /// A cache that has created nothing yet.
    pub fn new() -> (r: DirCache)
        ensures
            r@ is None,
    {
        DirCache { last_parent: None }
    }

    /// Whether the parent directory `parent` (given by its components, relative
    /// to the destination) must be created: it was not the last one created.
    pub fn needs_create(&self, parent: &[String]) -> (r: bool)
        ensures
            r == (self@ != Some(views(parent@))),
    {
        match &self.last_parent {
            None => true,
            Some(last) => !same_components(last, parent),
        }
    }

    /// Records that `parent` was created.
    pub fn remember(&mut self, parent: &[String])
        ensures
            final(self)@ == Some(views(parent@)),
    {
        let mut v: Vec<String> = Vec::new();
        let mut i: usize = 0;
        while i < parent.len()
            invariant
                i <= parent.len(),
                v@.len() == i,
                forall|j: int| 0 <= j < i ==> (#[trigger] v@[j])@ == parent@[j]@,
            decreases parent.len() - i,
        {
            let c = parent[i].clone();
            v.push(c);
            i = i + 1;
        }
        proof {
            assert(views(v@) =~= views(parent@));
        }
        self.last_parent = Some(v);
    }
}

} // verus!
