//! The status of a working copy, gathered from what the repository says.

use crate::merge::is_merge_present;
use crate::merge::is_merge_resolved;
use crate::merge::is_present;
use crate::merge::is_resolved;
use crate::merge::law_terms_tell_merge;
use crate::merge::merge_sides;
use crate::merge::merge_terms;
use crate::merge::num_sides;
use crate::repo_path::RepoPathBuf;
use crate::status_templater::BookmarkConflict;
use crate::status_templater::Commit;
use crate::status_templater::ConflictInfo;
use crate::status_templater::FileStatus;
use crate::status_templater::StatusEntry;
use crate::status_templater::WorkingCopyStatus;
use crate::untracked::path_views;
use crate::untracked::visited_views;
use crate::untracked::Visited;
use crate::untracked::VisitedPath;
use jj_lib::merge::Merge;
use vstd::prelude::*;

verus! {

/// A transition from one value to another.
#[derive(Clone, Debug)]
pub struct Diff<T> {
    pub before: T,
    pub after: T,
}

/// Whether or not the source path was deleted.
#[derive(Clone, Copy, Debug, PartialEq, Eq, Structural)]
pub enum CopyOperation {
    /// The source path was not deleted.
    Copy,
    /// The source path was renamed to the destination.
    Rename,
}

/// The path of a change, with the path that it was copied from.
#[derive(Debug)]
pub struct CopiesTreeDiffEntryPath {
    /// The source path and copy information if this is a copy or rename.
    pub source: Option<(RepoPathBuf, CopyOperation)>,
    /// The target path.
    pub target: RepoPathBuf,
}

/// A change between two trees.
#[derive(Debug)]
pub struct CopiesTreeDiffEntry<E> {
    pub path: CopiesTreeDiffEntryPath,
    /// What is at the path before and after, or why that is not known.
    pub values: Result<Diff<Merge<Option<u64>>>, E>,
}

/// Whether a change can be told: it was copied, or there is something before or after it.
pub open spec fn is_change(path: CopiesTreeDiffEntryPath, values: Diff<Merge<Option<u64>>>) -> bool {
    path.source is Some || is_merge_present(values.before) || is_merge_present(values.after)
}

/// How a change is told.
pub open spec fn change_status(
    path: CopiesTreeDiffEntryPath,
    values: Diff<Merge<Option<u64>>>,
) -> FileStatus {
    match path.source {
        Some((_, CopyOperation::Copy)) => FileStatus::Copied,
        Some((_, CopyOperation::Rename)) => FileStatus::Renamed,
        None => if !is_merge_present(values.before) {
            FileStatus::Added
        } else if !is_merge_present(values.after) {
            FileStatus::Deleted
        } else {
            FileStatus::Modified
        },
    }
}

/// The entry of a change in the status.
pub open spec fn file_change(
    path: CopiesTreeDiffEntryPath,
    values: Diff<Merge<Option<u64>>>,
) -> StatusEntry {
    StatusEntry {
        path: path.target,
        status: change_status(path, values),
        copy_source: match path.source {
            Some((source, _)) => Some(source),
            None => None,
        },
    }
}

/// The entry of a change in the status.
pub fn diff_entry_to_file_change(
    path: &CopiesTreeDiffEntryPath,
    values: &Diff<Merge<Option<u64>>>,
) -> (entry: StatusEntry)
    requires
        is_change(*path, *values),
    ensures
        entry == file_change(*path, *values),
{
    let target_path = path.target.clone();
    if let Some((source_path, op)) = &path.source {
        let status = match op {
            CopyOperation::Copy => FileStatus::Copied,
            CopyOperation::Rename => FileStatus::Renamed,
        };
        StatusEntry::with_copy_source(target_path, status, source_path.clone())
    } else {
        let status = match (is_present(&values.before), is_present(&values.after)) {
            (true, true) => FileStatus::Modified,
            (false, _) => FileStatus::Added,
            (true, false) => FileStatus::Deleted,
        };
        StatusEntry::new(target_path, status)
    }
}

/// The entry of a change in the status, or nothing where there is nothing on either side of it.
pub fn checked_file_change(
    path: &CopiesTreeDiffEntryPath,
    values: &Diff<Merge<Option<u64>>>,
) -> (entry: Option<StatusEntry>)
    ensures
        entry == (if is_change(*path, *values) {
            Some(file_change(*path, *values))
        } else {
            None
        }),
{
    if path.source.is_some() || is_present(&values.before) || is_present(&values.after) {
        Some(diff_entry_to_file_change(path, values))
    } else {
        None
    }
}

/// Whether all changes up to the first that is not known can be told.
pub open spec fn are_changes_told<E>(entries: Seq<CopiesTreeDiffEntry<E>>) -> bool {
    forall|i: int|
        0 <= i < entries.len() && (forall|k: int| 0 <= k < i ==> (#[trigger] entries[k]).values is Ok)
            ==> ((#[trigger] entries[i]).values matches Ok(values) ==> is_change(
            entries[i].path,
            values,
        ))
}

/// Whether all changes up to the first that is not known can be told.
pub fn can_tell_changes<E>(entries: &Vec<CopiesTreeDiffEntry<E>>) -> (told: bool)
    ensures
        told == are_changes_told(entries@),
{
    let mut i: usize = 0;
    while i < entries.len()
        invariant
            i <= entries.len(),
            forall|k: int|
                0 <= k < i ==> ((#[trigger] entries@[k]).values matches Ok(values) && is_change(
                    entries@[k].path,
                    values,
                )),
        decreases entries.len() - i,
    {
        let entry = &entries[i];
        match &entry.values {
            Ok(values) => {
                if checked_file_change(&entry.path, values).is_none() {
                    return false;
                }
            },
            Err(_) => {
                return true;
            },
        }
        i = i + 1;
    }
    true
}

/// Whether `result` has the entries of all changes, or the reason why the first change that is not
/// known is not.
pub open spec fn is_file_changes<E>(
    entries: Seq<CopiesTreeDiffEntry<E>>,
    result: Result<Vec<StatusEntry>, E>,
) -> bool {
    match result {
        Ok(changes) => {
            &&& changes@.len() == entries.len()
            &&& forall|i: int|
                0 <= i < entries.len() ==> ((#[trigger] entries[i]).values matches Ok(values)
                    && changes@[i] == file_change(entries[i].path, values))
        },
        Err(error) => exists|n: int|
            {
                &&& 0 <= n < entries.len()
                &&& (#[trigger] entries[n]).values == Err::<Diff<Merge<Option<u64>>>, E>(error)
                &&& forall|i: int| 0 <= i < n ==> (#[trigger] entries[i]).values is Ok
            },
    }
}

/// Extracts file changes from tree diff for template rendering
pub fn extract_file_changes<E>(entries: Vec<CopiesTreeDiffEntry<E>>) -> (result: Result<
    Vec<StatusEntry>,
    E,
>)
    requires
        are_changes_told(entries@),
    ensures
        is_file_changes(entries@, result),
{
    let ghost all = entries@;
    let mut file_changes: Vec<StatusEntry> = Vec::new();
    for entry in iter: entries
        invariant
            iter.seq() == all,
            are_changes_told(all),
            file_changes@.len() == iter.index(),
            forall|i: int|
                0 <= i < iter.index() ==> ((#[trigger] all[i]).values matches Ok(values)
                    && file_changes@[i] == file_change(all[i].path, values)),
    {
        assert(entry == all[iter.index() as int]);
        match entry.values {
            Ok(values) => {
                file_changes.push(diff_entry_to_file_change(&entry.path, &values));
            },
            Err(error) => {
                return Err(error);
            },
        }
    }
    Ok(file_changes)
}

/// A path with a conflict.
#[derive(Debug)]
pub struct TreeConflict<E> {
    pub path: RepoPathBuf,
    /// What is left unmerged at the path, or why that is not known.
    pub value: Result<Merge<Option<u64>>, E>,
}

/// Whether `result` tells all conflicts, or the reason why the first conflict that is not known is
/// not.
pub open spec fn is_conflict_infos<E>(
    conflicts: Seq<TreeConflict<E>>,
    result: Result<Vec<ConflictInfo>, E>,
) -> bool {
    match result {
        Ok(infos) => {
            &&& infos@.len() == conflicts.len()
            &&& forall|i: int|
                0 <= i < conflicts.len() ==> ((#[trigger] conflicts[i]).value matches Ok(value)
                    && infos@[i].path == conflicts[i].path && infos@[i].num_sides == merge_sides(
                    value,
                ))
        },
        Err(error) => exists|n: int|
            {
                &&& 0 <= n < conflicts.len()
                &&& (#[trigger] conflicts[n]).value == Err::<Merge<Option<u64>>, E>(error)
                &&& forall|i: int| 0 <= i < n ==> (#[trigger] conflicts[i]).value is Ok
            },
    }
}

/// Extracts conflicts from tree for template rendering
///
/// A path that is left unmerged has two sides at least.
pub fn extract_conflicts<E>(conflicts: Vec<TreeConflict<E>>) -> (result: Result<
    Vec<ConflictInfo>,
    E,
>)
    ensures
        is_conflict_infos(conflicts@, result),
        result matches Ok(infos) ==> forall|i: int|
            0 <= i < infos@.len() && !is_merge_resolved((#[trigger] conflicts@[i]).value->Ok_0)
                ==> infos@[i].num_sides >= 2,
{
    let ghost all = conflicts@;
    let mut infos: Vec<ConflictInfo> = Vec::new();
    for conflict in iter: conflicts
        invariant
            iter.seq() == all,
            infos@.len() == iter.index(),
            forall|i: int|
                0 <= i < iter.index() ==> ((#[trigger] all[i]).value matches Ok(value)
                    && infos@[i].path == all[i].path && infos@[i].num_sides == merge_sides(value)
                    && (!is_merge_resolved(value) ==> infos@[i].num_sides >= 2)),
    {
        assert(conflict == all[iter.index() as int]);
        match conflict.value {
            Ok(value) => {
                infos.push(ConflictInfo::new(conflict.path, num_sides(&value)));
            },
            Err(error) => {
                return Err(error);
            },
        }
    }
    Ok(infos)
}

/// A local bookmark, with the numbers of the commits that it points to.
#[derive(Debug)]
pub struct LocalBookmark {
    pub name: String,
    pub target: Merge<Option<u64>>,
}

/// A bookmark of a remote, with the numbers of the commits that it points to.
#[derive(Debug)]
pub struct RemoteBookmark {
    pub name: String,
    pub remote: String,
    pub target: Merge<Option<u64>>,
}

/// The conflicts among local bookmarks: those whose targets are left unmerged, in order.
pub open spec fn local_conflicts(bookmarks: Seq<LocalBookmark>) -> Seq<BookmarkConflict> {
    bookmarks.filter(|bookmark: LocalBookmark| !is_merge_resolved(bookmark.target)).map_values(
        |bookmark: LocalBookmark| BookmarkConflict { name: bookmark.name, remote: None },
    )
}

/// The conflicts among bookmarks of remotes: those whose targets are left unmerged, in order.
pub open spec fn remote_conflicts(bookmarks: Seq<RemoteBookmark>) -> Seq<BookmarkConflict> {
    bookmarks.filter(|bookmark: RemoteBookmark| !is_merge_resolved(bookmark.target)).map_values(
        |bookmark: RemoteBookmark|
            BookmarkConflict { name: bookmark.name, remote: Some(bookmark.remote) },
    )
}

/// One more local bookmark adds its conflict, if it has one.
proof fn lemma_local_conflicts_step(bookmarks: Seq<LocalBookmark>, i: int)
    requires
        0 <= i < bookmarks.len(),
    ensures
        local_conflicts(bookmarks.take(i + 1)) == (if is_merge_resolved(bookmarks[i].target) {
            local_conflicts(bookmarks.take(i))
        } else {
            local_conflicts(bookmarks.take(i)).push(
                BookmarkConflict { name: bookmarks[i].name, remote: None },
            )
        }),
{
    reveal(Seq::filter);
    assert(bookmarks.take(i + 1).drop_last() =~= bookmarks.take(i));
    assert(bookmarks.take(i + 1).last() == bookmarks[i]);
    assert(local_conflicts(bookmarks.take(i + 1)) =~= (if is_merge_resolved(bookmarks[i].target) {
        local_conflicts(bookmarks.take(i))
    } else {
        local_conflicts(bookmarks.take(i)).push(
            BookmarkConflict { name: bookmarks[i].name, remote: None },
        )
    }));
}

/// One more bookmark of a remote adds its conflict, if it has one.
proof fn lemma_remote_conflicts_step(bookmarks: Seq<RemoteBookmark>, i: int)
    requires
        0 <= i < bookmarks.len(),
    ensures
        remote_conflicts(bookmarks.take(i + 1)) == (if is_merge_resolved(bookmarks[i].target) {
            remote_conflicts(bookmarks.take(i))
        } else {
            remote_conflicts(bookmarks.take(i)).push(
                BookmarkConflict { name: bookmarks[i].name, remote: Some(bookmarks[i].remote) },
            )
        }),
{
    reveal(Seq::filter);
    assert(bookmarks.take(i + 1).drop_last() =~= bookmarks.take(i));
    assert(bookmarks.take(i + 1).last() == bookmarks[i]);
    assert(remote_conflicts(bookmarks.take(i + 1)) =~= (if is_merge_resolved(bookmarks[i].target) {
        remote_conflicts(bookmarks.take(i))
    } else {
        remote_conflicts(bookmarks.take(i)).push(
            BookmarkConflict { name: bookmarks[i].name, remote: Some(bookmarks[i].remote) },
        )
    }));
}

/// Extracts bookmark conflicts for template rendering
pub fn extract_bookmark_conflicts(
    local_bookmarks: &Vec<LocalBookmark>,
    remote_bookmarks: &Vec<RemoteBookmark>,
) -> (conflicts: (Vec<BookmarkConflict>, Vec<BookmarkConflict>))
    ensures
        conflicts.0@ == local_conflicts(local_bookmarks@),
        conflicts.1@ == remote_conflicts(remote_bookmarks@),
{
    let mut local: Vec<BookmarkConflict> = Vec::new();
    let mut remote: Vec<BookmarkConflict> = Vec::new();
    proof {
        reveal(Seq::filter);
        assert(local@ =~= local_conflicts(local_bookmarks@.take(0)));
        assert(remote@ =~= remote_conflicts(remote_bookmarks@.take(0)));
    }
    let mut i: usize = 0;
    while i < local_bookmarks.len()
        invariant
            i <= local_bookmarks.len(),
            local@ == local_conflicts(local_bookmarks@.take(i as int)),
        decreases local_bookmarks.len() - i,
    {
        proof {
            lemma_local_conflicts_step(local_bookmarks@, i as int);
        }
        let bookmark = &local_bookmarks[i];
        if !is_resolved(&bookmark.target) {
            local.push(BookmarkConflict::new(bookmark.name.clone()));
        }
        i = i + 1;
    }
    let mut k: usize = 0;
    while k < remote_bookmarks.len()
        invariant
            k <= remote_bookmarks.len(),
            remote@ == remote_conflicts(remote_bookmarks@.take(k as int)),
        decreases remote_bookmarks.len() - k,
    {
        proof {
            lemma_remote_conflicts_step(remote_bookmarks@, k as int);
        }
        let bookmark = &remote_bookmarks[k];
        if !is_resolved(&bookmark.target) {
            remote.push(
                BookmarkConflict::new_remote(bookmark.name.clone(), bookmark.remote.clone()),
            );
        }
        k = k + 1;
    }
    assert(local_bookmarks@.take(i as int) =~= local_bookmarks@);
    assert(remote_bookmarks@.take(k as int) =~= remote_bookmarks@);
    (local, remote)
}

/// The paths of what was visited.
pub open spec fn visited_paths(visits: Seq<VisitedPath>) -> Seq<RepoPathBuf> {
    visits.map_values(|visit: VisitedPath| visit.path)
}

/// Extracts collapsed untracked paths for template rendering
pub fn extract_untracked_paths(visits: Vec<VisitedPath>) -> (paths: Vec<RepoPathBuf>)
    ensures
        paths@ == visited_paths(visits@),
{
    let ghost all = visits@;
    let mut paths: Vec<RepoPathBuf> = Vec::new();
    for visit in iter: visits
        invariant
            iter.seq() == all,
            paths@.len() == iter.index(),
            forall|i: int| 0 <= i < iter.index() ==> paths@[i] == (#[trigger] all[i]).path,
    {
        paths.push(visit.path);
    }
    assert(paths@ =~= visited_paths(all));
    paths
}

/// The untracked paths of the status are those that were shown, in order.
pub proof fn law_untracked_paths_are_visited(visits: Seq<VisitedPath>)
    ensures
        path_views(visited_paths(visits)) == visited_views(visits).map_values(
            |visit: Visited| visit.path,
        ),
{
    assert(path_views(visited_paths(visits)) =~= visited_views(visits).map_values(
        |visit: Visited| visit.path,
    ));
}

/// Builds a complete WorkingCopyStatus object for template rendering
///
/// Where more than one part of it is not known, the reason is given for the file changes first, then
/// for the untracked paths, then for the conflicts.
pub fn build_working_copy_status<E>(
    diff_entries: Vec<CopiesTreeDiffEntry<E>>,
    untracked: Result<Vec<VisitedPath>, E>,
    tree_conflicts: Vec<TreeConflict<E>>,
    local_bookmarks: &Vec<LocalBookmark>,
    remote_bookmarks: &Vec<RemoteBookmark>,
    working_copy: Option<Commit>,
    parents: Vec<Commit>,
) -> (result: Result<WorkingCopyStatus, E>)
    requires
        are_changes_told(diff_entries@),
    ensures
        match result {
            Ok(status) => {
                &&& is_file_changes(diff_entries@, Ok(status.file_changes))
                &&& untracked matches Ok(visits) && status.untracked_paths@ == visited_paths(
                    visits@,
                )
                &&& is_conflict_infos(tree_conflicts@, Ok(status.conflicts))
                &&& status.local_bookmark_conflicts@ == local_conflicts(local_bookmarks@)
                &&& status.remote_bookmark_conflicts@ == remote_conflicts(remote_bookmarks@)
                &&& status.working_copy == working_copy
                &&& status.parents == parents
            },
            Err(error) => if exists|i: int|
                0 <= i < diff_entries@.len() && (#[trigger] diff_entries@[i]).values is Err {
                is_file_changes(diff_entries@, Err(error))
            } else {
                match untracked {
                    Err(reason) => error == reason,
                    Ok(_) => is_conflict_infos(tree_conflicts@, Err(error)),
                }
            },
        },
{
    let file_changes = match extract_file_changes(diff_entries) {
        Ok(file_changes) => file_changes,
        Err(error) => {
            return Err(error);
        },
    };
    let untracked_paths = match untracked {
        Ok(visits) => extract_untracked_paths(visits),
        Err(error) => {
            return Err(error);
        },
    };
    let conflicts = match extract_conflicts(tree_conflicts) {
        Ok(conflicts) => conflicts,
        Err(error) => {
            return Err(error);
        },
    };
    let (local_bookmark_conflicts, remote_bookmark_conflicts) = extract_bookmark_conflicts(
        local_bookmarks,
        remote_bookmarks,
    );
    Ok(
        WorkingCopyStatus {
            file_changes,
            untracked_paths,
            conflicts,
            local_bookmark_conflicts,
            remote_bookmark_conflicts,
            working_copy,
            parents,
        },
    )
}

/// Arguments of the command that shows the status.
#[derive(Clone, Debug)]
pub struct StatusArgs {
    /// Restrict the status display to these paths
    pub paths: Vec<String>,
    /// Render status using the given template
    pub template: Option<String>,
}

/// The parts of what is shown.
#[derive(Clone, Copy, Debug, PartialEq, Eq, Structural)]
pub enum StatusSection {
    /// The status itself, rendered by the template.
    Template,
    /// A warning of conflicts in the working copy, with their paths and what to do about them.
    UnresolvedConflicts,
    /// A hint that a conflict was resolved in the working copy.
    ResolvedConflict,
    /// A note that there is no working copy.
    NoWorkingCopy,
}

impl StatusSection {
    /// The label that the heading is styled by.
    pub open spec fn label_text(self) -> Seq<char> {
        match self {
            StatusSection::UnresolvedConflicts => "warning"@,
            StatusSection::ResolvedConflict => "hint"@,
            _ => ""@,
        }
    }

    /// What stands in front of the message.
    pub open spec fn heading_text(self) -> Seq<char> {
        match self {
            StatusSection::UnresolvedConflicts => "Warning: "@,
            StatusSection::ResolvedConflict => "Hint: "@,
            _ => ""@,
        }
    }

    /// The message.
    pub open spec fn message_text(self) -> Seq<char> {
        match self {
            StatusSection::Template => ""@,
            StatusSection::UnresolvedConflicts => "There are unresolved conflicts at these paths:"@,
            StatusSection::ResolvedConflict =>
                "Conflict in parent commit has been resolved in working copy"@,
            StatusSection::NoWorkingCopy => "No working copy"@,
        }
    }

    /// The label that the heading is styled by, if there is one.
    pub fn label(&self) -> (text: &'static str)
        ensures
            text@ == self.label_text(),
    {
        match self {
            StatusSection::UnresolvedConflicts => "warning",
            StatusSection::ResolvedConflict => "hint",
            StatusSection::Template => "",
            StatusSection::NoWorkingCopy => "",
        }
    }

    /// What stands in front of the message.
    pub fn heading(&self) -> (text: &'static str)
        ensures
            text@ == self.heading_text(),
    {
        match self {
            StatusSection::UnresolvedConflicts => "Warning: ",
            StatusSection::ResolvedConflict => "Hint: ",
            StatusSection::Template => "",
            StatusSection::NoWorkingCopy => "",
        }
    }

    /// The message, if this is not what the template renders.
    pub fn message(&self) -> (text: &'static str)
        ensures
            text@ == self.message_text(),
    {
        match self {
            StatusSection::Template => "",
            StatusSection::UnresolvedConflicts => "There are unresolved conflicts at these paths:",
            StatusSection::ResolvedConflict => {
                "Conflict in parent commit has been resolved in working copy"
            },
            StatusSection::NoWorkingCopy => "No working copy",
        }
    }
}

/// Whether one of the commits has conflicts.
pub open spec fn any_conflicted(commits: Seq<Commit>) -> bool {
    exists|i: int| 0 <= i < commits.len() && (#[trigger] commits[i]).is_conflicted()
}

/// Whether one of the commits has conflicts.
fn has_conflicted(commits: &Vec<Commit>) -> (found: bool)
    ensures
        found == any_conflicted(commits@),
{
    let mut i: usize = 0;
    while i < commits.len()
        invariant
            forall|k: int| 0 <= k < i ==> !(#[trigger] commits@[k]).is_conflicted(),
        decreases commits.len() - i,
    {
        if commits[i].has_conflict() {
            return true;
        }
        i = i + 1;
    }
    false
}

/// The parts that are shown, in order. Conflicts in the working copy are warned of where the default
/// template is used; a conflict in a parent is otherwise taken as resolved.
pub open spec fn sections(
    args: StatusArgs,
    working_copy: Option<Commit>,
    parents: Seq<Commit>,
) -> Seq<StatusSection> {
    match working_copy {
        None => seq![StatusSection::NoWorkingCopy],
        Some(commit) => if args.template is None && commit.is_conflicted() {
            seq![StatusSection::Template, StatusSection::UnresolvedConflicts]
        } else if any_conflicted(parents) {
            seq![StatusSection::Template, StatusSection::ResolvedConflict]
        } else {
            seq![StatusSection::Template]
        },
    }
}

/// The parts that are shown, in order.
pub fn status_sections(
    args: &StatusArgs,
    working_copy: &Option<Commit>,
    parents: &Vec<Commit>,
) -> (shown: Vec<StatusSection>)
    ensures
        shown@ == sections(*args, *working_copy, parents@),
{
    let mut shown: Vec<StatusSection> = Vec::new();
    match working_copy {
        None => {
            shown.push(StatusSection::NoWorkingCopy);
        },
        Some(commit) => {
            shown.push(StatusSection::Template);
            if args.template.is_none() && commit.has_conflict() {
                shown.push(StatusSection::UnresolvedConflicts);
            } else if has_conflicted(parents) {
                shown.push(StatusSection::ResolvedConflict);
            }
        },
    }
    assert(shown@ =~= sections(*args, *working_copy, parents@));
    shown
}

/// What the command shows.
#[derive(Debug)]
pub struct StatusOutput {
    /// The template that the status is rendered by.
    pub template: String,
    /// The parts that are shown, in order.
    pub sections: Vec<StatusSection>,
}

/// Decides what the command shows. The template is the one of the arguments, or else the configured
/// one, for which the reason is given where there is none. Where there is a working copy, its parents
/// are needed, and the reason is given next where they are not known.
pub fn cmd_status<E>(
    args: &StatusArgs,
    configured_template: Result<String, E>,
    working_copy: &Option<Commit>,
    parents: Result<Vec<Commit>, E>,
) -> (result: Result<StatusOutput, E>)
    ensures
        match result {
            Ok(output) => {
                &&& match args.template {
                    Some(template) => output.template == template,
                    None => configured_template == Ok::<String, E>(output.template),
                }
                &&& match parents {
                    Ok(parents) => output.sections@ == sections(*args, *working_copy, parents@),
                    Err(_) => working_copy is None && output.sections@
                        == seq![StatusSection::NoWorkingCopy],
                }
            },
            Err(error) => if args.template is None && configured_template is Err {
                configured_template == Err::<String, E>(error)
            } else {
                working_copy is Some && parents == Err::<Vec<Commit>, E>(error)
            },
        },
{
    let template = match &args.template {
        Some(template) => template.clone(),
        None => match configured_template {
            Ok(template) => template,
            Err(error) => {
                return Err(error);
            },
        },
    };
    let parents = match parents {
        Ok(parents) => parents,
        Err(error) => {
            if working_copy.is_some() {
                return Err(error);
            }
            Vec::new()
        },
    };
    Ok(StatusOutput { template, sections: status_sections(args, working_copy, &parents) })
}

/// A change has a copy source exactly if it is told as a copy or a rename, and is told as nothing
/// else by what is there before and after it.
pub proof fn law_copies_have_sources(
    path: CopiesTreeDiffEntryPath,
    values: Diff<Merge<Option<u64>>>,
)
    requires
        is_change(path, values),
    ensures
        ({
            let entry = file_change(path, values);
            let before = is_merge_present(values.before);
            let after = is_merge_present(values.after);
            &&& entry.copy_source is Some <==> entry.status == FileStatus::Copied || entry.status
                == FileStatus::Renamed
            &&& entry.copy_source is Some <==> entry.is_copy()
            &&& entry.status == FileStatus::Added <==> path.source is None && !before && after
            &&& entry.status == FileStatus::Deleted <==> path.source is None && before && !after
            &&& entry.status == FileStatus::Modified <==> path.source is None && before && after
        }),
{
}

/// The conflicts of local bookmarks have no remote, and those of remotes have one.
pub proof fn law_remotes_of_conflicts(
    local_bookmarks: Seq<LocalBookmark>,
    remote_bookmarks: Seq<RemoteBookmark>,
)
    ensures
        forall|i: int|
            0 <= i < local_conflicts(local_bookmarks).len() ==> (#[trigger] local_conflicts(
                local_bookmarks,
            )[i]).remote is None,
        forall|i: int|
            0 <= i < remote_conflicts(remote_bookmarks).len() ==> (#[trigger] remote_conflicts(
                remote_bookmarks,
            )[i]).remote is Some,
{
}

/// There is a conflict of local bookmarks exactly if the target of one of them is left unmerged.
pub proof fn law_local_conflicts_found(bookmarks: Seq<LocalBookmark>)
    ensures
        local_conflicts(bookmarks).len() > 0 <==> exists|i: int|
            0 <= i < bookmarks.len() && !is_merge_resolved((#[trigger] bookmarks[i]).target),
    decreases bookmarks.len(),
{
    if bookmarks.len() == 0 {
        reveal(Seq::filter);
    } else {
        let n = bookmarks.len() - 1;
        law_local_conflicts_found(bookmarks.take(n));
        lemma_local_conflicts_step(bookmarks, n);
        assert(bookmarks.take(n + 1) =~= bookmarks);
        assert(forall|i: int| 0 <= i < n ==> bookmarks.take(n)[i] == bookmarks[i]);
    }
}

/// There is a conflict of bookmarks of remotes exactly if the target of one of them is left unmerged.
pub proof fn law_remote_conflicts_found(bookmarks: Seq<RemoteBookmark>)
    ensures
        remote_conflicts(bookmarks).len() > 0 <==> exists|i: int|
            0 <= i < bookmarks.len() && !is_merge_resolved((#[trigger] bookmarks[i]).target),
    decreases bookmarks.len(),
{
    if bookmarks.len() == 0 {
        reveal(Seq::filter);
    } else {
        let n = bookmarks.len() - 1;
        law_remote_conflicts_found(bookmarks.take(n));
        lemma_remote_conflicts_step(bookmarks, n);
        assert(bookmarks.take(n + 1) =~= bookmarks);
        assert(forall|i: int| 0 <= i < n ==> bookmarks.take(n)[i] == bookmarks[i]);
    }
}

/// The warning and the hint are never shown together, nor twice, nor without the status; a given
/// template is never followed by the warning.
pub proof fn law_sections_exclude(
    args: StatusArgs,
    working_copy: Option<Commit>,
    parents: Seq<Commit>,
)
    ensures
        ({
            let shown = sections(args, working_copy, parents);
            &&& 1 <= shown.len() <= 2
            &&& working_copy is Some <==> shown[0] == StatusSection::Template
            &&& working_copy is None <==> shown == seq![StatusSection::NoWorkingCopy]
            &&& shown.len() == 2 ==> shown[1] == StatusSection::UnresolvedConflicts || shown[1]
                == StatusSection::ResolvedConflict
            &&& args.template is Some ==> !shown.contains(StatusSection::UnresolvedConflicts)
        }),
{
    let shown = sections(args, working_copy, parents);
    if working_copy is None {
        assert(shown[0] == StatusSection::NoWorkingCopy);
    } else {
        assert(shown[0] == StatusSection::Template);
        assert(seq![StatusSection::NoWorkingCopy][0] == StatusSection::NoWorkingCopy);
    }
}

/// A change can be told exactly if it was copied, or if one of its sides is anything but a single
/// absent term.
pub proof fn law_changes_that_can_be_told(
    path: CopiesTreeDiffEntryPath,
    values: Diff<Merge<Option<u64>>>,
)
    ensures
        is_change(path, values) <==> path.source is Some || merge_terms(values.before)
            != seq![None::<u64>] || merge_terms(values.after) != seq![None::<u64>],
{
    law_terms_tell_merge(values.before);
    law_terms_tell_merge(values.after);
}

/// A change that was copied is told by what was done to its source, whatever is there before and
/// after it; any other is told by which of its sides are absent. Its entry is at its target, and
/// names its source.
pub proof fn law_change_is_told(path: CopiesTreeDiffEntryPath, values: Diff<Merge<Option<u64>>>)
    requires
        path.source is Some || merge_terms(values.before) != seq![None::<u64>] || merge_terms(
            values.after,
        ) != seq![None::<u64>],
    ensures
        ({
            let entry = file_change(path, values);
            let before = merge_terms(values.before) != seq![None::<u64>];
            let after = merge_terms(values.after) != seq![None::<u64>];
            &&& entry.path == path.target
            &&& entry.status == FileStatus::Renamed <==> path.source is Some && path.source->Some_0.1
                == CopyOperation::Rename
            &&& entry.status == FileStatus::Copied <==> path.source is Some && path.source->Some_0.1
                == CopyOperation::Copy
            &&& entry.status == FileStatus::Added <==> path.source is None && !before && after
            &&& entry.status == FileStatus::Deleted <==> path.source is None && before && !after
            &&& entry.status == FileStatus::Modified <==> path.source is None && before && after
            &&& entry.copy_source is Some <==> path.source is Some
            &&& path.source is Some ==> entry.copy_source == Some(path.source->Some_0.0)
        }),
{
    law_terms_tell_merge(values.before);
    law_terms_tell_merge(values.after);
}

/// Changes are looked at in turn: behind one that is not known nothing matters, and behind one that
/// is known the rest decides, if that one can be told.
pub proof fn law_changes_told_in_turn<E>(entries: Seq<CopiesTreeDiffEntry<E>>)
    ensures
        entries.len() == 0 ==> are_changes_told(entries),
        entries.len() > 0 ==> match entries[0].values {
            Err(_) => are_changes_told(entries),
            Ok(values) => are_changes_told(entries) <==> (entries[0].path.source is Some || merge_terms(
                values.before,
            ) != seq![None::<u64>] || merge_terms(values.after) != seq![None::<u64>])
                && are_changes_told(entries.skip(1)),
        },
{
    if entries.len() > 0 {
        if let Ok(values) = entries[0].values {
            law_changes_that_can_be_told(entries[0].path, values);
            let rest = entries.skip(1);
            if are_changes_told(entries) {
                assert(is_change(entries[0].path, values));
                assert forall|i: int|
                    0 <= i < rest.len() && (forall|k: int|
                        0 <= k < i ==> (#[trigger] rest[k]).values is Ok) implies ((
                #[trigger] rest[i]).values matches Ok(values) ==> is_change(rest[i].path, values)) by {
                    assert forall|k: int| 0 <= k < i + 1 implies (#[trigger] entries[k]).values is Ok by {
                        if k > 0 {
                            assert(rest[k - 1].values is Ok);
                        }
                    }
                    assert(rest[i] == entries[i + 1]);
                }
            }
            if is_change(entries[0].path, values) && are_changes_told(rest) {
                assert forall|i: int|
                    0 <= i < entries.len() && (forall|k: int|
                        0 <= k < i ==> (#[trigger] entries[k]).values is Ok) implies ((
                #[trigger] entries[i]).values matches Ok(values) ==> is_change(
                    entries[i].path,
                    values,
                )) by {
                    if i > 0 {
                        assert forall|k: int| 0 <= k < i - 1 implies (#[trigger] rest[k]).values is Ok by {
                            assert(entries[k + 1].values is Ok);
                        }
                        assert(rest[i - 1] == entries[i]);
                    }
                }
            }
        } else {
            assert forall|i: int|
                0 <= i < entries.len() && (forall|k: int|
                    0 <= k < i ==> (#[trigger] entries[k]).values is Ok) implies ((
            #[trigger] entries[i]).values matches Ok(values) ==> is_change(entries[i].path, values)) by {
                if i > 0 {
                    assert(entries[0].values is Ok);
                }
            }
        }
    }
}

/// Where all changes are known, each has its entry, in order and at its target, deleted files too.
/// Otherwise the reason is given for the first that is not known.
pub proof fn law_every_change_is_listed<E>(
    entries: Seq<CopiesTreeDiffEntry<E>>,
    result: Result<Vec<StatusEntry>, E>,
)
    requires
        is_file_changes(entries, result),
    ensures
        result is Ok <==> forall|i: int|
            0 <= i < entries.len() ==> (#[trigger] entries[i]).values is Ok,
        result matches Ok(changes) ==> {
            &&& changes@.len() == entries.len()
            &&& forall|i: int|
                0 <= i < entries.len() ==> {
                    &&& (#[trigger] changes@[i]).path == entries[i].path.target
                    &&& changes@[i].copy_source is Some <==> entries[i].path.source is Some
                    &&& changes@[i] == file_change(entries[i].path, entries[i].values->Ok_0)
                }
        },
        result matches Err(error) ==> exists|n: int|
            {
                &&& 0 <= n < entries.len()
                &&& (#[trigger] entries[n]).values is Err
                &&& entries[n].values->Err_0 == error
                &&& forall|i: int| 0 <= i < n ==> (#[trigger] entries[i]).values is Ok
            },
{
    if let Ok(changes) = result {
        assert forall|i: int| 0 <= i < entries.len() implies {
            &&& (#[trigger] changes@[i]).path == entries[i].path.target
            &&& changes@[i].copy_source is Some <==> entries[i].path.source is Some
            &&& changes@[i] == file_change(entries[i].path, entries[i].values->Ok_0)
        } by {
            assert(entries[i].values is Ok);
        }
    }
}

/// Where all conflicts are known, each is told, in order: at its path, and with half as many sides as
/// it has terms, rounded up. Otherwise the reason is given for the first that is not known.
pub proof fn law_every_conflict_is_listed<E>(
    conflicts: Seq<TreeConflict<E>>,
    result: Result<Vec<ConflictInfo>, E>,
)
    requires
        is_conflict_infos(conflicts, result),
    ensures
        result is Ok <==> forall|i: int|
            0 <= i < conflicts.len() ==> (#[trigger] conflicts[i]).value is Ok,
        result matches Ok(infos) ==> {
            &&& infos@.len() == conflicts.len()
            &&& forall|i: int|
                0 <= i < conflicts.len() ==> {
                    let terms = merge_terms(conflicts[i].value->Ok_0).len();
                    &&& (#[trigger] infos@[i]).path == conflicts[i].path
                    &&& terms % 2 == 1 ==> 2 * infos@[i].num_sides == terms + 1
                }
        },
        result matches Err(error) ==> exists|n: int|
            {
                &&& 0 <= n < conflicts.len()
                &&& (#[trigger] conflicts[n]).value is Err
                &&& conflicts[n].value->Err_0 == error
                &&& forall|i: int| 0 <= i < n ==> (#[trigger] conflicts[i]).value is Ok
            },
{
    if let Ok(infos) = result {
        assert forall|i: int| 0 <= i < conflicts.len() implies {
            let terms = merge_terms(conflicts[i].value->Ok_0).len();
            &&& (#[trigger] infos@[i]).path == conflicts[i].path
            &&& terms % 2 == 1 ==> 2 * infos@[i].num_sides == terms + 1
        } by {
            assert(conflicts[i].value is Ok);
            law_terms_tell_merge(conflicts[i].value->Ok_0);
        }
    }
}

/// The conflicts of some local bookmarks and more are those of the first, followed by those of the
/// others. A single bookmark is a conflict of its name, without a remote, exactly if its target does
/// not have one term.
pub proof fn law_local_conflicts_one_by_one(
    a: Seq<LocalBookmark>,
    b: Seq<LocalBookmark>,
    bookmark: LocalBookmark,
)
    ensures
        local_conflicts(a + b) == local_conflicts(a) + local_conflicts(b),
        merge_terms(bookmark.target).len() == 1 ==> local_conflicts(seq![bookmark]).len() == 0,
        merge_terms(bookmark.target).len() != 1 ==> {
            let conflicts = local_conflicts(seq![bookmark]);
            &&& conflicts.len() == 1
            &&& conflicts[0].name == bookmark.name
            &&& conflicts[0].remote is None
        },
{
    let unmerged = |bookmark: LocalBookmark| !is_merge_resolved(bookmark.target);
    Seq::filter_distributes_over_add(a, b, unmerged);
    assert(local_conflicts(a + b) =~= local_conflicts(a) + local_conflicts(b));
    reveal(Seq::filter);
    let one = seq![bookmark];
    assert(one.drop_last() =~= Seq::<LocalBookmark>::empty());
    assert(one.drop_last().filter(unmerged) =~= Seq::<LocalBookmark>::empty());
}

/// The conflicts of some bookmarks of remotes and more are those of the first, followed by those of
/// the others. A single bookmark is a conflict of its name at its remote exactly if its target does
/// not have one term.
pub proof fn law_remote_conflicts_one_by_one(
    a: Seq<RemoteBookmark>,
    b: Seq<RemoteBookmark>,
    bookmark: RemoteBookmark,
)
    ensures
        remote_conflicts(a + b) == remote_conflicts(a) + remote_conflicts(b),
        merge_terms(bookmark.target).len() == 1 ==> remote_conflicts(seq![bookmark]).len() == 0,
        merge_terms(bookmark.target).len() != 1 ==> {
            let conflicts = remote_conflicts(seq![bookmark]);
            &&& conflicts.len() == 1
            &&& conflicts[0].name == bookmark.name
            &&& conflicts[0].remote == Some(bookmark.remote)
        },
{
    let unmerged = |bookmark: RemoteBookmark| !is_merge_resolved(bookmark.target);
    Seq::filter_distributes_over_add(a, b, unmerged);
    assert(remote_conflicts(a + b) =~= remote_conflicts(a) + remote_conflicts(b));
    reveal(Seq::filter);
    let one = seq![bookmark];
    assert(one.drop_last() =~= Seq::<RemoteBookmark>::empty());
    assert(one.drop_last().filter(unmerged) =~= Seq::<RemoteBookmark>::empty());
}

/// Each visit gives its path, in order.
pub proof fn law_each_visit_gives_its_path(visits: Seq<VisitedPath>)
    ensures
        visited_paths(visits).len() == visits.len(),
        forall|i: int|
            0 <= i < visits.len() ==> #[trigger] visited_paths(visits)[i] == visits[i].path,
{
}

/// With a working copy, the warning is shown exactly if no template was given and the working copy has
/// conflicts, whatever its parents are; the hint is shown exactly if the warning is not and some
/// parent has conflicts; and there is nothing else but the status in front. Without a working copy
/// that is said, and nothing else.
pub proof fn law_sections_decided(
    args: StatusArgs,
    working_copy: Option<Commit>,
    parents: Seq<Commit>,
)
    ensures
        ({
            let shown = sections(args, working_copy, parents);
            let parent_conflicted = exists|i: int|
                0 <= i < parents.len() && merge_terms((#[trigger] parents[i]).tree_ids).len() != 1;
            match working_copy {
                None => shown.len() == 1 && shown[0] == StatusSection::NoWorkingCopy,
                Some(commit) => {
                    let warned = args.template is None && merge_terms(commit.tree_ids).len() != 1;
                    let hinted = !warned && parent_conflicted;
                    &&& shown.len() == (if warned || hinted {
                        2int
                    } else {
                        1int
                    })
                    &&& shown[0] == StatusSection::Template
                    &&& shown.contains(StatusSection::UnresolvedConflicts) <==> warned
                    &&& shown.contains(StatusSection::ResolvedConflict) <==> hinted
                },
            }
        }),
{
    let shown = sections(args, working_copy, parents);
    let parent_conflicted = exists|i: int|
        0 <= i < parents.len() && merge_terms((#[trigger] parents[i]).tree_ids).len() != 1;
    if parent_conflicted {
        let i = choose|i: int|
            0 <= i < parents.len() && merge_terms((#[trigger] parents[i]).tree_ids).len() != 1;
        assert(parents[i].is_conflicted());
    }
    assert(any_conflicted(parents) == parent_conflicted);
    if let Some(commit) = working_copy {
        let warned = args.template is None && merge_terms(commit.tree_ids).len() != 1;
        assert(warned == (args.template is None && commit.is_conflicted()));
        if warned {
            assert(shown[1] == StatusSection::UnresolvedConflicts);
        } else if parent_conflicted {
            assert(shown[1] == StatusSection::ResolvedConflict);
        }
    }
}

/// Only the warning and the hint have a label and a heading; the status itself has no message.
pub proof fn law_section_texts(section: StatusSection)
    ensures
        section.label_text() == (if section == StatusSection::UnresolvedConflicts {
            "warning"@
        } else if section == StatusSection::ResolvedConflict {
            "hint"@
        } else {
            ""@
        }),
        section.heading_text() == (if section == StatusSection::UnresolvedConflicts {
            "Warning: "@
        } else if section == StatusSection::ResolvedConflict {
            "Hint: "@
        } else {
            ""@
        }),
        section == StatusSection::Template ==> section.message_text() == ""@,
        section == StatusSection::UnresolvedConflicts ==> section.message_text()
            == "There are unresolved conflicts at these paths:"@,
        section == StatusSection::ResolvedConflict ==> section.message_text()
            == "Conflict in parent commit has been resolved in working copy"@,
        section == StatusSection::NoWorkingCopy ==> section.message_text() == "No working copy"@,
{
}

} // verus!
