//! What the status of a working copy consists of.

use crate::decimal::decimal;
use crate::decimal::decimal_string;
use crate::decimal::lemma_decimal_injective;
use crate::merge::clone_merge;
use crate::merge::is_merge_resolved;
use crate::merge::is_resolved;
use crate::merge::merge_terms;
use crate::repo_path::RepoPathBuf;
use jj_lib::merge::Merge;
use vstd::prelude::*;

verus! {

/// Status of a file in the working copy
#[derive(Clone, Copy, Debug, PartialEq, Eq, Structural)]
pub enum FileStatus {
    Added,
    Modified,
    Deleted,
    Renamed,
    Copied,
}

impl FileStatus {
    /// The label that the status is styled by.
    pub open spec fn label_text(self) -> Seq<char> {
        match self {
            FileStatus::Added => "added"@,
            FileStatus::Modified => "modified"@,
            FileStatus::Deleted => "removed"@,
            FileStatus::Renamed => "renamed"@,
            FileStatus::Copied => "copied"@,
        }
    }

    /// The letter that the status is shown by.
    pub open spec fn letter(self) -> char {
        match self {
            FileStatus::Added => 'A',
            FileStatus::Modified => 'M',
            FileStatus::Deleted => 'D',
            FileStatus::Renamed => 'R',
            FileStatus::Copied => 'C',
        }
    }

    /// Returns the label for styling (e.g., "added", "removed")
    /// These match the color config labels like "diff added", "diff removed"
    pub fn label(&self) -> (label: &'static str)
        ensures
            label@ == self.label_text(),
    {
        match self {
            FileStatus::Added => "added",
            FileStatus::Modified => "modified",
            FileStatus::Deleted => "removed",
            FileStatus::Renamed => "renamed",
            FileStatus::Copied => "copied",
        }
    }

    /// Returns the single character representation (e.g., 'A', 'M')
    pub fn char(&self) -> (letter: char)
        ensures
            letter == self.letter(),
    {
        match self {
            FileStatus::Added => 'A',
            FileStatus::Modified => 'M',
            FileStatus::Deleted => 'D',
            FileStatus::Renamed => 'R',
            FileStatus::Copied => 'C',
        }
    }

    /// Returns the status as a string (same as char but as &str)
    pub fn as_str(&self) -> (text: &'static str)
        ensures
            text@ == seq![self.letter()],
    {
        proof {
            reveal_strlit("A");
            reveal_strlit("M");
            reveal_strlit("D");
            reveal_strlit("R");
            reveal_strlit("C");
        }
        match self {
            FileStatus::Added => "A",
            FileStatus::Modified => "M",
            FileStatus::Deleted => "D",
            FileStatus::Renamed => "R",
            FileStatus::Copied => "C",
        }
    }

    /// The status in the form that is displayed.
    pub fn to_string(&self) -> (text: String)
        ensures
            text@ == seq![self.letter()],
    {
        self.as_str().to_owned()
    }
}

/// No two statuses share a letter.
pub proof fn law_letters_differ(a: FileStatus, b: FileStatus)
    requires
        a.letter() == b.letter(),
    ensures
        a == b,
{
}

/// No two statuses share a label.
pub proof fn law_labels_differ(a: FileStatus, b: FileStatus)
    requires
        a.label_text() == b.label_text(),
    ensures
        a == b,
{
    reveal_strlit("added");
    reveal_strlit("modified");
    reveal_strlit("removed");
    reveal_strlit("renamed");
    reveal_strlit("copied");
    assert("added"@[0] == 'a');
    assert("modified"@[0] == 'm');
    assert("removed"@[2] == 'm');
    assert("renamed"@[2] == 'n');
    assert("copied"@[0] == 'c');
}

/// A single entry in the status output representing a file change
#[derive(Debug)]
pub struct StatusEntry {
    pub path: RepoPathBuf,
    pub status: FileStatus,
    pub copy_source: Option<RepoPathBuf>,
}

impl Clone for StatusEntry {
    fn clone(&self) -> (copy: Self)
        ensures
            copy == *self,
    {
        let copy_source = match &self.copy_source {
            Some(source) => Some(source.clone()),
            None => None,
        };
        StatusEntry { path: self.path.clone(), status: self.status, copy_source }
    }
}

impl StatusEntry {
    pub fn new(path: RepoPathBuf, status: FileStatus) -> (entry: Self)
        ensures
            entry == (StatusEntry { path, status, copy_source: None }),
    {
        Self { path, status, copy_source: None }
    }

    pub fn with_copy_source(path: RepoPathBuf, status: FileStatus, copy_source: RepoPathBuf) -> (entry:
        Self)
        ensures
            entry == (StatusEntry { path, status, copy_source: Some(copy_source) }),
    {
        Self { path, status, copy_source: Some(copy_source) }
    }

    /// Whether this is a copy or rename operation: it says so, or says what was copied.
    pub open spec fn is_copy(self) -> bool {
        self.copy_source is Some || self.status == FileStatus::Renamed || self.status
            == FileStatus::Copied
    }

    /// Returns true if this is a copy or rename operation
    pub fn has_copy_source(&self) -> (has: bool)
        ensures
            has == self.is_copy(),
    {
        self.copy_source.is_some() || self.status == FileStatus::Renamed || self.status
            == FileStatus::Copied
    }
}

/// Information about conflicts in the working copy
#[derive(Debug)]
pub struct ConflictInfo {
    pub path: RepoPathBuf,
    pub num_sides: usize,
}

impl Clone for ConflictInfo {
    fn clone(&self) -> (copy: Self)
        ensures
            copy == *self,
    {
        ConflictInfo { path: self.path.clone(), num_sides: self.num_sides }
    }
}

impl ConflictInfo {
    pub fn new(path: RepoPathBuf, num_sides: usize) -> (info: Self)
        ensures
            info == (ConflictInfo { path, num_sides }),
    {
        Self { path, num_sides }
    }

    /// The number of sides, spelled out.
    pub open spec fn description(self) -> Seq<char> {
        decimal(self.num_sides as nat) + "-sided conflict"@
    }

    /// Returns a description of the conflict sides (e.g., "2-sided conflict")
    pub fn sides_description(&self) -> (text: String)
        ensures
            text@ == self.description(),
    {
        let mut text = decimal_string(self.num_sides);
        text.append("-sided conflict");
        text
    }
}

/// The description of a conflict tells the number of its sides.
pub proof fn law_description_tells_sides(a: ConflictInfo, b: ConflictInfo)
    requires
        a.description() == b.description(),
    ensures
        a.num_sides == b.num_sides,
{
    let tail = "-sided conflict"@;
    let m = decimal(a.num_sides as nat);
    let n = decimal(b.num_sides as nat);
    assert((m + tail).take(m.len() as int) =~= m);
    assert((n + tail).take(n.len() as int) =~= n);
    assert((m + tail).len() == (n + tail).len());
    lemma_decimal_injective(a.num_sides as nat, b.num_sides as nat);
}

/// Information about bookmark conflicts
#[derive(Debug)]
pub struct BookmarkConflict {
    pub name: String,
    pub remote: Option<String>,
}

impl Clone for BookmarkConflict {
    fn clone(&self) -> (copy: Self)
        ensures
            copy == *self,
    {
        let remote = match &self.remote {
            Some(remote) => Some(remote.clone()),
            None => None,
        };
        BookmarkConflict { name: self.name.clone(), remote }
    }
}

impl BookmarkConflict {
    pub fn new(name: String) -> (conflict: Self)
        ensures
            conflict == (BookmarkConflict { name, remote: None }),
    {
        Self { name, remote: None }
    }

    pub fn new_remote(name: String, remote: String) -> (conflict: Self)
        ensures
            conflict == (BookmarkConflict { name, remote: Some(remote) }),
    {
        Self { name, remote: Some(remote) }
    }

    /// The name of the bookmark, with that of its remote.
    pub open spec fn full_text(self) -> Seq<char> {
        match self.remote {
            Some(remote) => self.name@.push('@') + remote@,
            None => self.name@,
        }
    }

    /// Returns the full name including remote if applicable
    pub fn full_name(&self) -> (text: String)
        ensures
            text@ == self.full_text(),
    {
        let mut text = self.name.clone();
        if let Some(remote) = &self.remote {
            proof {
                reveal_strlit("@");
            }
            text.append("@");
            text.append(remote.as_str());
            assert(text@ =~= self.name@.push('@') + remote@);
        }
        text
    }
}

/// A commit, with what the status of a working copy needs of it.
#[derive(Debug)]
pub struct Commit {
    /// The commit's id, by which it is found in the store.
    pub id: Vec<u8>,
    /// The numbers of the trees that were merged into the commit's root tree.
    pub tree_ids: Merge<Option<u64>>,
}

impl Clone for Commit {
    fn clone(&self) -> (copy: Self)
        ensures
            copy.is_same_commit(*self),
    {
        Commit { id: self.id.clone(), tree_ids: clone_merge(&self.tree_ids) }
    }
}

impl Commit {
    /// Whether this is the commit `other`.
    pub open spec fn is_same_commit(self, other: Commit) -> bool {
        &&& self.id@ == other.id@
        &&& merge_terms(self.tree_ids) == merge_terms(other.tree_ids)
    }

    /// Whether the commit's root tree is left unmerged.
    pub open spec fn is_conflicted(self) -> bool {
        !is_merge_resolved(self.tree_ids)
    }

    /// Whether the commit has conflicts.
    pub fn has_conflict(&self) -> (conflicted: bool)
        ensures
            conflicted == self.is_conflicted(),
    {
        !is_resolved(&self.tree_ids)
    }
}

/// Overall status information for a working copy
#[derive(Debug)]
pub struct WorkingCopyStatus {
    pub file_changes: Vec<StatusEntry>,
    pub untracked_paths: Vec<RepoPathBuf>,
    pub conflicts: Vec<ConflictInfo>,
    pub local_bookmark_conflicts: Vec<BookmarkConflict>,
    pub remote_bookmark_conflicts: Vec<BookmarkConflict>,
    pub working_copy: Option<Commit>,
    pub parents: Vec<Commit>,
}

impl Clone for WorkingCopyStatus {
    fn clone(&self) -> (copy: Self)
        ensures
            copy.is_same_status(*self),
    {
        let working_copy = match &self.working_copy {
            Some(commit) => Some(commit.clone()),
            None => None,
        };
        let copy = WorkingCopyStatus {
            file_changes: self.file_changes.clone(),
            untracked_paths: self.untracked_paths.clone(),
            conflicts: self.conflicts.clone(),
            local_bookmark_conflicts: self.local_bookmark_conflicts.clone(),
            remote_bookmark_conflicts: self.remote_bookmark_conflicts.clone(),
            working_copy,
            parents: self.parents.clone(),
        };
        assert(copy.file_changes@ =~= self.file_changes@);
        assert(copy.untracked_paths@ =~= self.untracked_paths@);
        assert(copy.conflicts@ =~= self.conflicts@);
        assert(copy.local_bookmark_conflicts@ =~= self.local_bookmark_conflicts@);
        assert(copy.remote_bookmark_conflicts@ =~= self.remote_bookmark_conflicts@);
        copy
    }
}

impl WorkingCopyStatus {
    /// Whether this says the same as `other`.
    pub open spec fn is_same_status(self, other: WorkingCopyStatus) -> bool {
        &&& self.file_changes@ == other.file_changes@
        &&& self.untracked_paths@ == other.untracked_paths@
        &&& self.conflicts@ == other.conflicts@
        &&& self.local_bookmark_conflicts@ == other.local_bookmark_conflicts@
        &&& self.remote_bookmark_conflicts@ == other.remote_bookmark_conflicts@
        &&& match (self.working_copy, other.working_copy) {
            (Some(a), Some(b)) => a.is_same_commit(b),
            (None, None) => true,
            _ => false,
        }
        &&& self.parents@.len() == other.parents@.len()
        &&& forall|i: int|
            0 <= i < self.parents@.len() ==> (#[trigger] self.parents@[i]).is_same_commit(
                other.parents@[i],
            )
    }

    /// Whether there is nothing in the status.
    pub open spec fn is_blank(self) -> bool {
        &&& self.file_changes@.len() == 0
        &&& self.untracked_paths@.len() == 0
        &&& self.conflicts@.len() == 0
        &&& self.local_bookmark_conflicts@.len() == 0
        &&& self.remote_bookmark_conflicts@.len() == 0
        &&& self.working_copy is None
        &&& self.parents@.len() == 0
    }

    pub fn new() -> (status: Self)
        ensures
            status.is_blank(),
    {
        Self {
            file_changes: Vec::new(),
            untracked_paths: Vec::new(),
            conflicts: Vec::new(),
            local_bookmark_conflicts: Vec::new(),
            remote_bookmark_conflicts: Vec::new(),
            working_copy: None,
            parents: Vec::new(),
        }
    }

    pub fn has_file_changes(&self) -> (has: bool)
        ensures
            has == (self.file_changes@.len() > 0),
    {
        !self.file_changes.is_empty()
    }

    pub fn has_untracked_paths(&self) -> (has: bool)
        ensures
            has == (self.untracked_paths@.len() > 0),
    {
        !self.untracked_paths.is_empty()
    }

    pub fn has_conflicts(&self) -> (has: bool)
        ensures
            has == (self.conflicts@.len() > 0),
    {
        !self.conflicts.is_empty()
    }

    pub fn has_bookmark_conflicts(&self) -> (has: bool)
        ensures
            has == (self.local_bookmark_conflicts@.len() > 0 || self.remote_bookmark_conflicts@.len()
                > 0),
    {
        !self.local_bookmark_conflicts.is_empty() || !self.remote_bookmark_conflicts.is_empty()
    }

    pub fn has_local_bookmark_conflicts(&self) -> (has: bool)
        ensures
            has == (self.local_bookmark_conflicts@.len() > 0),
    {
        !self.local_bookmark_conflicts.is_empty()
    }

    pub fn has_remote_bookmark_conflicts(&self) -> (has: bool)
        ensures
            has == (self.remote_bookmark_conflicts@.len() > 0),
    {
        !self.remote_bookmark_conflicts.is_empty()
    }
}

impl Default for WorkingCopyStatus {
    fn default() -> (status: Self)
        ensures
            status.is_blank(),
    {
        Self::new()
    }
}

/// With a copy source a file change is a copy or a rename whatever its status is; without one its
/// status decides.
pub proof fn law_copies_told(entry: StatusEntry)
    ensures
        entry.copy_source is Some ==> entry.is_copy(),
        entry.copy_source is None ==> (entry.is_copy() <==> entry.status == FileStatus::Renamed
            || entry.status == FileStatus::Copied),
{
}

/// The description of a conflict begins with the number of sides, and what follows is the same for
/// all conflicts.
pub proof fn law_description_parts(conflict: ConflictInfo)
    ensures
        ({
            let text = conflict.description();
            let number = decimal(conflict.num_sides as nat);
            &&& text.len() == number.len() + "-sided conflict"@.len()
            &&& text.take(number.len() as int) == number
            &&& text.skip(number.len() as int) == "-sided conflict"@
        }),
{
    let text = conflict.description();
    let number = decimal(conflict.num_sides as nat);
    assert(text.take(number.len() as int) =~= number);
    assert(text.skip(number.len() as int) =~= "-sided conflict"@);
}

/// The full name of a bookmark without a remote is its name. With a remote it begins with the name
/// and ends with the remote, and between them stands one character, which is `@`.
pub proof fn law_full_name_parts(bookmark: BookmarkConflict)
    ensures
        bookmark.remote is None ==> bookmark.full_text() == bookmark.name@,
        bookmark.remote matches Some(remote) ==> {
            let text = bookmark.full_text();
            let at = bookmark.name@.len() as int;
            &&& text.len() == at + 1 + remote@.len()
            &&& text.take(at) == bookmark.name@
            &&& text[at] == '@'
            &&& text.skip(at + 1) == remote@
        },
{
    if let Some(remote) = bookmark.remote {
        let text = bookmark.full_text();
        let at = bookmark.name@.len() as int;
        assert(text.take(at) =~= bookmark.name@);
        assert(text.skip(at + 1) =~= remote@);
    }
}

/// Commits that are the same agree in their ids and in all terms of their trees, and one has conflicts
/// exactly if the other does: if its tree does not have one term.
pub proof fn law_same_commits_agree(a: Commit, b: Commit)
    ensures
        a.is_same_commit(b) <==> a.id@ == b.id@ && merge_terms(a.tree_ids) == merge_terms(b.tree_ids),
        a.is_conflicted() <==> merge_terms(a.tree_ids).len() != 1,
{
}

/// Statuses that say the same agree in each of their lists, item by item, and in their commits.
pub proof fn law_same_statuses_agree(a: WorkingCopyStatus, b: WorkingCopyStatus)
    requires
        a.is_same_status(b),
    ensures
        a.file_changes@ == b.file_changes@,
        a.untracked_paths@ == b.untracked_paths@,
        a.conflicts@ == b.conflicts@,
        a.local_bookmark_conflicts@ == b.local_bookmark_conflicts@,
        a.remote_bookmark_conflicts@ == b.remote_bookmark_conflicts@,
        a.working_copy is Some <==> b.working_copy is Some,
        a.working_copy matches Some(commit) ==> commit.id@ == b.working_copy->Some_0.id@ && merge_terms(
            commit.tree_ids,
        ) == merge_terms(b.working_copy->Some_0.tree_ids),
        a.parents@.len() == b.parents@.len(),
        forall|i: int|
            0 <= i < a.parents@.len() ==> (#[trigger] a.parents@[i]).id@ == b.parents@[i].id@
                && merge_terms(a.parents@[i].tree_ids) == merge_terms(b.parents@[i].tree_ids),
{
    assert forall|i: int| 0 <= i < a.parents@.len() implies (#[trigger] a.parents@[i]).id@
        == b.parents@[i].id@ && merge_terms(a.parents@[i].tree_ids) == merge_terms(
        b.parents@[i].tree_ids,
    ) by {
        assert(a.parents@[i].is_same_commit(b.parents@[i]));
    }
}

/// There is nothing in a blank status: each of its lists is empty, and it has no commit.
pub proof fn law_blank_status_is_empty(status: WorkingCopyStatus)
    requires
        status.is_blank(),
    ensures
        status.file_changes@ == Seq::<StatusEntry>::empty(),
        status.untracked_paths@ == Seq::<RepoPathBuf>::empty(),
        status.conflicts@ == Seq::<ConflictInfo>::empty(),
        status.local_bookmark_conflicts@ == Seq::<BookmarkConflict>::empty(),
        status.remote_bookmark_conflicts@ == Seq::<BookmarkConflict>::empty(),
        status.working_copy is None,
        status.parents@ == Seq::<Commit>::empty(),
{
}

} // verus!
