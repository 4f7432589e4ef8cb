//! The status that is displayed: the one of the working copy, restricted to the paths that are asked
//! for.
//!
//! Which paths are asked for is told by flags, one for each path.

use crate::merge::merge_sides;
use crate::repo_path::RepoPathBuf;
use crate::status::are_changes_told;
use crate::status::build_working_copy_status;
use crate::status::is_conflict_infos;
use crate::status::is_file_changes;
use crate::status::local_conflicts;
use crate::status::remote_conflicts;
use crate::status::visited_paths;
use crate::status::CopiesTreeDiffEntry;
use crate::status::LocalBookmark;
use crate::status::RemoteBookmark;
use crate::status::TreeConflict;
use crate::status_templater::Commit;
use crate::status_templater::ConflictInfo;
use crate::status_templater::WorkingCopyStatus;
use crate::untracked::collapsed;
use crate::untracked::collapsed_all;
use crate::untracked::is_ascending;
use crate::untracked::law_ascending_shown_once;
use crate::untracked::law_collapsed_is_outermost;
use crate::untracked::law_every_file_is_covered;
use crate::untracked::law_no_path_before_itself;
use crate::untracked::law_shown_for_a_file;
use crate::untracked::path_views;
use crate::untracked::visited_views;
use crate::untracked::VisitedPath;
use vstd::prelude::*;

verus! {

/// The items whose flag is set, in order.
pub open spec fn kept_items<T>(items: Seq<T>, shown: Seq<bool>) -> Seq<T>
    decreases items.len(),
{
    if items.len() == 0 {
        Seq::empty()
    } else {
        let kept = kept_items(items.drop_last(), shown.drop_last());
        if shown.last() {
            kept.push(items.last())
        } else {
            kept
        }
    }
}

/// Keeps the items whose flag is set.
pub fn restrict_items<T>(items: Vec<T>, shown: &Vec<bool>) -> (kept: Vec<T>)
    requires
        shown@.len() == items@.len(),
    ensures
        kept@ == kept_items(items@, shown@),
{
    let ghost all = items@;
    let mut kept: Vec<T> = Vec::new();
    let mut i: usize = 0;
    for item in iter: items
        invariant
            iter.seq() == all,
            shown@.len() == all.len(),
            i == iter.index(),
            kept@ == kept_items(all.take(i as int), shown@.take(i as int)),
    {
        proof {
            assert(item == all[i as int]);
            assert(i < shown.len());
            assert(all.take(i + 1).drop_last() =~= all.take(i as int));
            assert(shown@.take(i + 1).drop_last() =~= shown@.take(i as int));
        }
        if shown[i] {
            kept.push(item);
        }
        i = i + 1;
    }
    assert(all.take(i as int) =~= all);
    assert(shown@.take(i as int) =~= shown@);
    kept
}

/// What is kept has its flag set.
pub proof fn law_kept_items_are_shown<T>(items: Seq<T>, shown: Seq<bool>, k: int)
    requires
        shown.len() == items.len(),
        0 <= k < kept_items(items, shown).len(),
    ensures
        exists|i: int|
            0 <= i < items.len() && shown[i] && kept_items(items, shown)[k] == #[trigger] items[i],
    decreases items.len(),
{
    let front = kept_items(items.drop_last(), shown.drop_last());
    if k < front.len() {
        law_kept_items_are_shown(items.drop_last(), shown.drop_last(), k);
        let i = choose|i: int|
            0 <= i < items.drop_last().len() && shown.drop_last()[i] && front[k]
                == #[trigger] items.drop_last()[i];
        assert(items[i] == items.drop_last()[i]);
        assert(shown[i]);
    } else {
        let n = items.len() - 1;
        assert(kept_items(items, shown)[k] == items[n]);
        assert(shown[n]);
    }
}

/// What has its flag set is kept, in order: the item is preceded by what is kept of those before it.
pub proof fn law_shown_items_are_kept<T>(items: Seq<T>, shown: Seq<bool>, i: int)
    requires
        shown.len() == items.len(),
        0 <= i < items.len(),
        shown[i],
    ensures
        kept_items(items.take(i), shown.take(i)).push(items[i]).is_prefix_of(
            kept_items(items, shown),
        ),
    decreases items.len(),
{
    let n = items.len() - 1;
    if i < n {
        law_shown_items_are_kept(items.drop_last(), shown.drop_last(), i);
        assert(items.drop_last().take(i) =~= items.take(i));
        assert(shown.drop_last().take(i) =~= shown.take(i));
        assert(items.drop_last()[i] == items[i]);
        let front = kept_items(items.take(i), shown.take(i)).push(items[i]);
        assert(front =~= kept_items(items, shown).take(front.len() as int));
    } else {
        assert(items.drop_last() =~= items.take(i));
        assert(shown.drop_last() =~= shown.take(i));
        let front = kept_items(items.take(i), shown.take(i)).push(items[i]);
        assert(front =~= kept_items(items, shown));
        assert(front =~= kept_items(items, shown).take(front.len() as int));
    }
}

/// Where everything is to be shown, nothing is left out.
pub proof fn law_all_shown_is_all_kept<T>(items: Seq<T>, shown: Seq<bool>)
    requires
        shown.len() == items.len(),
        forall|i: int| 0 <= i < shown.len() ==> #[trigger] shown[i],
    ensures
        kept_items(items, shown) == items,
    decreases items.len(),
{
    if items.len() > 0 {
        assert forall|i: int| 0 <= i < shown.drop_last().len() implies #[trigger] shown.drop_last()[i] by {
            assert(shown[i]);
        }
        law_all_shown_is_all_kept(items.drop_last(), shown.drop_last());
        assert(shown[items.len() - 1]);
        assert(items.drop_last().push(items.last()) =~= items);
    }
    assert(kept_items(items, shown) =~= items);
}

/// What is kept stays in order.
proof fn lemma_kept_order<T>(items: Seq<T>, shown: Seq<bool>, k: int, l: int) -> (at: (int, int))
    requires
        shown.len() == items.len(),
        0 <= k < l < kept_items(items, shown).len(),
    ensures
        0 <= at.0 < at.1 < items.len(),
        shown[at.0],
        shown[at.1],
        kept_items(items, shown)[k] == items[at.0],
        kept_items(items, shown)[l] == items[at.1],
    decreases items.len(),
{
    let front = kept_items(items.drop_last(), shown.drop_last());
    if l < front.len() {
        lemma_kept_order(items.drop_last(), shown.drop_last(), k, l)
    } else {
        law_kept_items_are_shown(items.drop_last(), shown.drop_last(), k);
        let i = choose|i: int|
            0 <= i < items.drop_last().len() && shown.drop_last()[i] && front[k]
                == #[trigger] items.drop_last()[i];
        (i, items.len() - 1)
    }
}

/// For each of the paths, whether it is in the directory `dir`.
pub open spec fn in_dir_flags(dir: Seq<Seq<char>>, files: Seq<RepoPathBuf>) -> Seq<bool> {
    files.map_values(|file: RepoPathBuf| dir.is_prefix_of(file@))
}

/// The files that are in the directory `dir`, each shown by itself.
pub open spec fn files_in_dir(dir: Seq<Seq<char>>, files: Seq<RepoPathBuf>) -> Seq<VisitedPath> {
    kept_items(files, in_dir_flags(dir, files)).map_values(
        |file: RepoPathBuf| VisitedPath { path: file, is_dir: false },
    )
}

/// What is displayed in place of a visit, where `files` are the untracked files that are asked for:
/// the visit itself if it is asked for, or else the files that it stands for.
pub open spec fn shown_for_visit(
    visit: VisitedPath,
    is_shown: bool,
    files: Seq<RepoPathBuf>,
) -> Seq<VisitedPath> {
    if is_shown {
        seq![visit]
    } else if visit.is_dir {
        files_in_dir(visit.path@, files)
    } else {
        Seq::empty()
    }
}

/// What is displayed of the visits, one after the other.
pub open spec fn restricted_visits(
    visits: Seq<VisitedPath>,
    shown: Seq<bool>,
    files: Seq<RepoPathBuf>,
) -> Seq<VisitedPath>
    decreases visits.len(),
{
    if visits.len() == 0 {
        Seq::empty()
    } else {
        restricted_visits(visits.drop_last(), shown.drop_last(), files) + shown_for_visit(
            visits.last(),
            shown.last(),
            files,
        )
    }
}

/// Shows by itself each of the files that are in the directory `dir`.
fn list_files_in_dir(dir: &RepoPathBuf, files: &Vec<RepoPathBuf>) -> (visits: Vec<VisitedPath>)
    ensures
        visits@ == files_in_dir(dir@, files@),
{
    let ghost flags = in_dir_flags(dir@, files@);
    let ghost mut kept: Seq<RepoPathBuf> = Seq::empty();
    let mut visits: Vec<VisitedPath> = Vec::new();
    let mut i: usize = 0;
    while i < files.len()
        invariant
            i <= files.len(),
            flags == in_dir_flags(dir@, files@),
            kept == kept_items(files@.take(i as int), flags.take(i as int)),
            visits@.len() == kept.len(),
            forall|k: int|
                0 <= k < kept.len() ==> #[trigger] visits@[k] == (VisitedPath {
                    path: kept[k],
                    is_dir: false,
                }),
        decreases files.len() - i,
    {
        let file = &files[i];
        proof {
            assert(files@.take(i + 1).drop_last() =~= files@.take(i as int));
            assert(flags.take(i + 1).drop_last() =~= flags.take(i as int));
        }
        if file.starts_with(dir) {
            visits.push(VisitedPath { path: file.clone(), is_dir: false });
            proof {
                kept = kept.push(*file);
            }
        }
        i = i + 1;
    }
    assert(files@.take(i as int) =~= files@);
    assert(flags.take(i as int) =~= flags);
    assert(visits@ =~= files_in_dir(dir@, files@));
    visits
}

/// Restricts the visits to those that are asked for, where `files` are the untracked files that are
/// asked for. In place of a directory that is not asked for stand the files in it that are.
pub fn restrict_visits(
    visits: Vec<VisitedPath>,
    shown: &Vec<bool>,
    files: &Vec<RepoPathBuf>,
) -> (kept: Vec<VisitedPath>)
    requires
        shown@.len() == visits@.len(),
    ensures
        kept@ == restricted_visits(visits@, shown@, files@),
{
    let ghost all = visits@;
    let mut kept: Vec<VisitedPath> = Vec::new();
    let mut i: usize = 0;
    for visit in iter: visits
        invariant
            iter.seq() == all,
            shown@.len() == all.len(),
            i == iter.index(),
            kept@ == restricted_visits(all.take(i as int), shown@.take(i as int), files@),
    {
        let ghost before = kept@;
        proof {
            assert(visit == all[i as int]);
            assert(i < shown.len());
            assert(all.take(i + 1).drop_last() =~= all.take(i as int));
            assert(shown@.take(i + 1).drop_last() =~= shown@.take(i as int));
        }
        if shown[i] {
            kept.push(visit);
        } else if visit.is_dir {
            let mut inside = list_files_in_dir(&visit.path, files);
            kept.append(&mut inside);
        }
        assert(kept@ =~= before + shown_for_visit(all[i as int], shown@[i as int], files@));
        i = i + 1;
    }
    assert(all.take(i as int) =~= all);
    assert(shown@.take(i as int) =~= shown@);
    kept
}

/// Untracked files, what was visited for them, and which of both are asked for.
#[derive(Debug)]
pub struct UntrackedPaths {
    pub files: Vec<RepoPathBuf>,
    /// For each of the files, whether it is asked for.
    pub files_shown: Vec<bool>,
    pub visits: Vec<VisitedPath>,
    /// For each of the visits, whether its path is asked for.
    pub visits_shown: Vec<bool>,
}

impl UntrackedPaths {
    /// Whether there is a flag for each file and each visit.
    pub open spec fn is_flagged(self) -> bool {
        &&& self.files_shown@.len() == self.files@.len()
        &&& self.visits_shown@.len() == self.visits@.len()
    }

    /// Whether the flags tell which paths are `matching`.
    pub open spec fn is_flagged_by(self, matching: spec_fn(Seq<Seq<char>>) -> bool) -> bool {
        &&& self.is_flagged()
        &&& forall|i: int|
            0 <= i < self.files@.len() ==> self.files_shown@[i] == matching(
                (#[trigger] self.files@[i])@,
            )
        &&& forall|i: int|
            0 <= i < self.visits@.len() ==> self.visits_shown@[i] == matching(
                (#[trigger] self.visits@[i]).path@,
            )
    }

    /// Whether the files were visited, with `dirs` as the tracked directories.
    pub open spec fn is_visited(self, dirs: Set<Seq<Seq<char>>>) -> bool {
        visited_views(self.visits@) == collapsed_all(dirs, path_views(self.files@))
    }

    /// The files that are asked for.
    pub open spec fn shown_files(self) -> Seq<RepoPathBuf> {
        kept_items(self.files@, self.files_shown@)
    }

    /// What is displayed.
    pub open spec fn displayed(self) -> Seq<VisitedPath> {
        restricted_visits(self.visits@, self.visits_shown@, self.shown_files())
    }

    /// Restricts what was visited to what is asked for.
    pub fn into_displayed(self) -> (displayed: Vec<VisitedPath>)
        requires
            self.is_flagged(),
        ensures
            displayed@ == self.displayed(),
    {
        let files = restrict_items(self.files, &self.files_shown);
        restrict_visits(self.visits, &self.visits_shown, &files)
    }
}

/// The conflicts that are kept are told by what is kept of what tells them.
proof fn lemma_kept_conflict_infos<E>(
    conflicts: Seq<TreeConflict<E>>,
    infos: Seq<ConflictInfo>,
    shown: Seq<bool>,
)
    requires
        shown.len() == conflicts.len(),
        infos.len() == conflicts.len(),
        forall|i: int|
            0 <= i < conflicts.len() ==> ((#[trigger] conflicts[i]).value matches Ok(value)
                && infos[i].path == conflicts[i].path && infos[i].num_sides == merge_sides(value)),
    ensures
        kept_items(infos, shown).len() == kept_items(conflicts, shown).len(),
        forall|i: int|
            0 <= i < kept_items(conflicts, shown).len() ==> ((#[trigger] kept_items(
                conflicts,
                shown,
            )[i]).value matches Ok(value) && kept_items(infos, shown)[i].path == kept_items(
                conflicts,
                shown,
            )[i].path && kept_items(infos, shown)[i].num_sides == merge_sides(value)),
    decreases conflicts.len(),
{
    if conflicts.len() > 0 {
        let n = conflicts.len() - 1;
        assert(conflicts[n].value is Ok);
        assert forall|i: int| 0 <= i < n implies ((#[trigger] conflicts.drop_last()[i]).value matches Ok(
            value,
        ) && infos.drop_last()[i].path == conflicts.drop_last()[i].path
            && infos.drop_last()[i].num_sides == merge_sides(value)) by {
            assert(conflicts.drop_last()[i] == conflicts[i]);
        }
        lemma_kept_conflict_infos(conflicts.drop_last(), infos.drop_last(), shown.drop_last());
    }
}

/// Whether there is a conflict of which nothing is known.
pub open spec fn is_conflict_unknown<E>(conflicts: Seq<TreeConflict<E>>) -> bool {
    exists|i: int| 0 <= i < conflicts.len() && (#[trigger] conflicts[i]).value is Err
}

/// Builds the status that is displayed: the one of the working copy, restricted to the untracked
/// paths and the conflicts that are asked for. The changes are those at the paths that are asked for
/// already.
///
/// The reason why something is not known is given for what is not displayed as well.
pub fn build_displayed_status<E>(
    diff_entries: Vec<CopiesTreeDiffEntry<E>>,
    untracked: Result<UntrackedPaths, E>,
    tree_conflicts: Vec<TreeConflict<E>>,
    conflicts_shown: &Vec<bool>,
    local_bookmarks: &Vec<LocalBookmark>,
    remote_bookmarks: &Vec<RemoteBookmark>,
    working_copy: Option<Commit>,
    parents: Vec<Commit>,
) -> (result: Result<WorkingCopyStatus, E>)
    requires
        are_changes_told(diff_entries@),
        untracked matches Ok(untracked) ==> untracked.is_flagged(),
        conflicts_shown@.len() == tree_conflicts@.len(),
    ensures
        match result {
            Ok(status) => {
                &&& is_file_changes(diff_entries@, Ok(status.file_changes))
                &&& untracked matches Ok(untracked) && status.untracked_paths@ == visited_paths(
                    untracked.displayed(),
                )
                &&& !is_conflict_unknown(tree_conflicts@)
                &&& is_conflict_infos(
                    kept_items(tree_conflicts@, conflicts_shown@),
                    Ok(status.conflicts),
                )
                &&& status.local_bookmark_conflicts@ == local_conflicts(local_bookmarks@)
                &&& status.remote_bookmark_conflicts@ == remote_conflicts(remote_bookmarks@)
                &&& status.working_copy == working_copy
                &&& status.parents == parents
            },
            Err(error) => if exists|i: int|
                0 <= i < diff_entries@.len() && (#[trigger] diff_entries@[i]).values is Err {
                is_file_changes(diff_entries@, Err(error))
            } else {
                match untracked {
                    Err(reason) => error == reason,
                    Ok(_) => is_conflict_infos(tree_conflicts@, Err(error)),
                }
            },
        },
{
    let ghost all_conflicts = tree_conflicts@;
    let untracked = match untracked {
        Ok(untracked) => Ok(untracked.into_displayed()),
        Err(error) => Err(error),
    };
    let status = match build_working_copy_status(
        diff_entries,
        untracked,
        tree_conflicts,
        local_bookmarks,
        remote_bookmarks,
        working_copy,
        parents,
    ) {
        Ok(status) => status,
        Err(error) => {
            return Err(error);
        },
    };
    proof {
        lemma_kept_conflict_infos(all_conflicts, status.conflicts@, conflicts_shown@);
    }
    let conflicts = restrict_items(status.conflicts, conflicts_shown);
    Ok(
        WorkingCopyStatus {
            file_changes: status.file_changes,
            untracked_paths: status.untracked_paths,
            conflicts,
            local_bookmark_conflicts: status.local_bookmark_conflicts,
            remote_bookmark_conflicts: status.remote_bookmark_conflicts,
            working_copy: status.working_copy,
            parents: status.parents,
        },
    )
}

/// Where in the display stands what is displayed in place of `visits[j]`.
spec fn display_start(
    visits: Seq<VisitedPath>,
    shown: Seq<bool>,
    files: Seq<RepoPathBuf>,
    j: int,
) -> int {
    restricted_visits(visits.take(j), shown.take(j), files).len() as int
}

/// What is displayed in place of a visit stands in the display, after what is displayed in place of
/// the visits before it.
proof fn lemma_display_start(
    visits: Seq<VisitedPath>,
    shown: Seq<bool>,
    files: Seq<RepoPathBuf>,
    j: int,
)
    requires
        shown.len() == visits.len(),
        0 <= j < visits.len(),
    ensures
        ({
            let start = display_start(visits, shown, files, j);
            let part = shown_for_visit(visits[j], shown[j], files);
            let all = restricted_visits(visits, shown, files);
            &&& 0 <= start
            &&& display_start(visits, shown, files, j + 1) == start + part.len()
            &&& start + part.len() <= all.len()
            &&& forall|m: int| 0 <= m < part.len() ==> #[trigger] all[start + m] == part[m]
        }),
    decreases visits.len(),
{
    let n = visits.len() - 1;
    assert(visits.take(j + 1).drop_last() =~= visits.take(j));
    assert(shown.take(j + 1).drop_last() =~= shown.take(j));
    if j < n {
        let front = visits.drop_last();
        let front_shown = shown.drop_last();
        lemma_display_start(front, front_shown, files, j);
        assert(front.take(j) =~= visits.take(j));
        assert(front_shown.take(j) =~= shown.take(j));
        let start = display_start(visits, shown, files, j);
        let part = shown_for_visit(visits[j], shown[j], files);
        assert forall|m: int| 0 <= m < part.len() implies #[trigger] restricted_visits(
            visits,
            shown,
            files,
        )[start + m] == part[m] by {
            assert(restricted_visits(front, front_shown, files)[start + m] == part[m]);
        }
    } else {
        assert(visits.take(j + 1) =~= visits);
        assert(shown.take(j + 1) =~= shown);
        assert(visits.drop_last() =~= visits.take(j));
        assert(shown.drop_last() =~= shown.take(j));
    }
}

/// What is displayed is displayed in place of a visit.
proof fn lemma_display_source(
    visits: Seq<VisitedPath>,
    shown: Seq<bool>,
    files: Seq<RepoPathBuf>,
    k: int,
) -> (j: int)
    requires
        shown.len() == visits.len(),
        0 <= k < restricted_visits(visits, shown, files).len(),
    ensures
        0 <= j < visits.len(),
        display_start(visits, shown, files, j) <= k < display_start(visits, shown, files, j + 1),
    decreases visits.len(),
{
    let front = visits.drop_last();
    let front_shown = shown.drop_last();
    if k < restricted_visits(front, front_shown, files).len() {
        let j = lemma_display_source(front, front_shown, files, k);
        assert(front.take(j) =~= visits.take(j));
        assert(front_shown.take(j) =~= shown.take(j));
        assert(front.take(j + 1) =~= visits.take(j + 1));
        assert(front_shown.take(j + 1) =~= shown.take(j + 1));
        j
    } else {
        let n = visits.len() - 1;
        assert(visits.take(n) =~= front);
        assert(shown.take(n) =~= front_shown);
        assert(visits.take(n + 1) =~= visits);
        assert(shown.take(n + 1) =~= shown);
        n
    }
}

/// What is displayed in place of a later visit stands later in the display.
proof fn lemma_display_start_grows(
    visits: Seq<VisitedPath>,
    shown: Seq<bool>,
    files: Seq<RepoPathBuf>,
    i: int,
    j: int,
)
    requires
        shown.len() == visits.len(),
        0 <= i <= j <= visits.len(),
    ensures
        display_start(visits, shown, files, i) <= display_start(visits, shown, files, j),
    decreases j - i,
{
    if i < j {
        lemma_display_start_grows(visits, shown, files, i, j - 1);
        lemma_display_start(visits, shown, files, j - 1);
    }
}

/// What is listed of a directory is one of the files, shown by itself.
proof fn lemma_file_in_dir(dir: Seq<Seq<char>>, files: Seq<RepoPathBuf>, m: int) -> (i: int)
    requires
        0 <= m < files_in_dir(dir, files).len(),
    ensures
        0 <= i < files.len(),
        files_in_dir(dir, files)[m] == (VisitedPath { path: files[i], is_dir: false }),
        dir.is_prefix_of(files[i]@),
{
    let flags = in_dir_flags(dir, files);
    law_kept_items_are_shown(files, flags, m);
    choose|i: int|
        0 <= i < files.len() && flags[i] && kept_items(files, flags)[m] == #[trigger] files[i]
}

/// Every untracked file that is asked for is displayed, by itself or by a directory that it is in and
/// that is asked for.
pub proof fn law_matching_files_are_displayed(
    dirs: Set<Seq<Seq<char>>>,
    untracked: UntrackedPaths,
    matching: spec_fn(Seq<Seq<char>>) -> bool,
    i: int,
)
    requires
        untracked.is_flagged_by(matching),
        untracked.is_visited(dirs),
        0 <= i < untracked.files@.len(),
        matching(untracked.files@[i]@),
    ensures
        exists|k: int|
            {
                &&& 0 <= k < untracked.displayed().len()
                &&& (#[trigger] untracked.displayed()[k])@.covers(untracked.files@[i]@)
                &&& visited_paths(untracked.displayed())[k]@.is_prefix_of(untracked.files@[i]@)
            },
{
    let visits = untracked.visits@;
    let shown = untracked.visits_shown@;
    let files = untracked.shown_files();
    let file = untracked.files@[i];
    let paths = path_views(untracked.files@);
    law_every_file_is_covered(dirs, paths, i);
    assert(paths[i] == file@);
    let j = choose|j: int|
        0 <= j < collapsed_all(dirs, paths).len() && #[trigger] collapsed_all(dirs, paths)[j].covers(
            paths[i],
        );
    assert(visited_views(visits)[j] == visits[j]@);
    assert(file@.is_prefix_of(file@));
    lemma_display_start(visits, shown, files, j);
    let start = display_start(visits, shown, files, j);
    let part = shown_for_visit(visits[j], shown[j], files);
    if shown[j] {
        assert(untracked.displayed()[start + 0] == part[0]);
    } else {
        let dir = visits[j].path@;
        let flags = in_dir_flags(dir, files);
        let front = kept_items(untracked.files@.take(i), untracked.files_shown@.take(i));
        law_shown_items_are_kept(untracked.files@, untracked.files_shown@, i);
        let n = front.len() as int;
        assert(front.push(file)[n] == file);
        assert(files[n] == file);
        law_shown_items_are_kept(files, flags, n);
        let inner = kept_items(files.take(n), flags.take(n));
        let m = inner.len() as int;
        assert(inner.push(file)[m] == file);
        assert(kept_items(files, flags)[m] == file);
        assert(part[m] == (VisitedPath { path: file, is_dir: false }));
        assert(untracked.displayed()[start + m] == part[m]);
    }
}

/// What is displayed is asked for, and is one of the visits or one of the files.
pub proof fn law_displayed_untracked_match(
    untracked: UntrackedPaths,
    matching: spec_fn(Seq<Seq<char>>) -> bool,
    k: int,
)
    requires
        untracked.is_flagged_by(matching),
        0 <= k < untracked.displayed().len(),
    ensures
        matching(untracked.displayed()[k].path@),
        untracked.visits@.contains(untracked.displayed()[k]) || (!untracked.displayed()[k].is_dir
            && untracked.files@.contains(untracked.displayed()[k].path)),
{
    let visits = untracked.visits@;
    let shown = untracked.visits_shown@;
    let files = untracked.shown_files();
    let j = lemma_display_source(visits, shown, files, k);
    lemma_display_start(visits, shown, files, j);
    let m = k - display_start(visits, shown, files, j);
    assert(untracked.displayed()[display_start(visits, shown, files, j) + m] == shown_for_visit(
        visits[j],
        shown[j],
        files,
    )[m]);
    if !shown[j] {
        let n = lemma_file_in_dir(visits[j].path@, files, m);
        law_kept_items_are_shown(untracked.files@, untracked.files_shown@, n);
    }
}

/// Every path that the displayed status shows is asked for: that of a change, where the changes are
/// those at paths that are asked for, and that of an untracked file or a conflict, where the flags
/// tell which paths are.
pub proof fn law_displayed_paths_match<E>(
    diff_entries: Seq<CopiesTreeDiffEntry<E>>,
    untracked: UntrackedPaths,
    conflicts: Seq<TreeConflict<E>>,
    conflicts_shown: Seq<bool>,
    status: WorkingCopyStatus,
    matching: spec_fn(Seq<Seq<char>>) -> bool,
)
    requires
        forall|i: int|
            0 <= i < diff_entries.len() ==> matching((#[trigger] diff_entries[i]).path.target@),
        untracked.is_flagged_by(matching),
        conflicts_shown.len() == conflicts.len(),
        forall|i: int|
            0 <= i < conflicts.len() ==> conflicts_shown[i] == matching(
                (#[trigger] conflicts[i]).path@,
            ),
        is_file_changes(diff_entries, Ok(status.file_changes)),
        status.untracked_paths@ == visited_paths(untracked.displayed()),
        is_conflict_infos(kept_items(conflicts, conflicts_shown), Ok(status.conflicts)),
    ensures
        forall|k: int|
            0 <= k < status.file_changes@.len() ==> matching(
                (#[trigger] status.file_changes@[k]).path@,
            ),
        forall|k: int|
            0 <= k < status.untracked_paths@.len() ==> matching(
                (#[trigger] status.untracked_paths@[k])@,
            ),
        forall|k: int|
            0 <= k < status.conflicts@.len() ==> matching((#[trigger] status.conflicts@[k]).path@),
{
    assert forall|k: int| 0 <= k < status.file_changes@.len() implies matching(
        (#[trigger] status.file_changes@[k]).path@,
    ) by {
        assert(diff_entries[k].values is Ok);
    }
    assert forall|k: int| 0 <= k < status.untracked_paths@.len() implies matching(
        (#[trigger] status.untracked_paths@[k])@,
    ) by {
        law_displayed_untracked_match(untracked, matching, k);
    }
    assert forall|k: int| 0 <= k < status.conflicts@.len() implies matching(
        (#[trigger] status.conflicts@[k]).path@,
    ) by {
        law_kept_items_are_shown(conflicts, conflicts_shown, k);
        assert(kept_items(conflicts, conflicts_shown)[k].value is Ok);
    }
}

/// Every conflict that is asked for is displayed.
pub proof fn law_matching_conflicts_are_displayed<E>(
    conflicts: Seq<TreeConflict<E>>,
    conflicts_shown: Seq<bool>,
    status: WorkingCopyStatus,
    i: int,
)
    requires
        conflicts_shown.len() == conflicts.len(),
        is_conflict_infos(kept_items(conflicts, conflicts_shown), Ok(status.conflicts)),
        0 <= i < conflicts.len(),
        conflicts_shown[i],
    ensures
        exists|k: int|
            0 <= k < status.conflicts@.len() && (#[trigger] status.conflicts@[k]).path
                == conflicts[i].path,
{
    law_shown_items_are_kept(conflicts, conflicts_shown, i);
    let front = kept_items(conflicts.take(i), conflicts_shown.take(i));
    let n = front.len() as int;
    assert(front.push(conflicts[i])[n] == conflicts[i]);
    assert(kept_items(conflicts, conflicts_shown)[n].value is Ok);
    assert(status.conflicts@[n].path == conflicts[i].path);
}

/// Where everything is asked for, what is displayed is what was visited.
pub proof fn law_all_asked_for_is_all_displayed(
    visits: Seq<VisitedPath>,
    shown: Seq<bool>,
    files: Seq<RepoPathBuf>,
)
    requires
        shown.len() == visits.len(),
        forall|i: int| 0 <= i < shown.len() ==> #[trigger] shown[i],
    ensures
        restricted_visits(visits, shown, files) == visits,
    decreases visits.len(),
{
    if visits.len() > 0 {
        assert forall|i: int| 0 <= i < shown.drop_last().len() implies #[trigger] shown.drop_last()[i] by {
            assert(shown[i]);
        }
        law_all_asked_for_is_all_displayed(visits.drop_last(), shown.drop_last(), files);
        assert(shown[visits.len() - 1]);
    }
    assert(restricted_visits(visits, shown, files) =~= visits);
}

/// A directory that was visited holds nothing else that was visited by a longer path: all directories
/// above that are tracked.
proof fn lemma_no_visit_inside(
    dirs: Set<Seq<Seq<char>>>,
    paths: Seq<Seq<Seq<char>>>,
    outer: int,
    inner: int,
)
    requires
        0 <= outer < collapsed_all(dirs, paths).len(),
        0 <= inner < collapsed_all(dirs, paths).len(),
        collapsed_all(dirs, paths)[outer].is_dir,
        collapsed_all(dirs, paths)[outer].path.is_prefix_of(collapsed_all(dirs, paths)[inner].path),
    ensures
        collapsed_all(dirs, paths)[outer].path == collapsed_all(dirs, paths)[inner].path,
{
    let all = collapsed_all(dirs, paths);
    law_shown_for_a_file(dirs, paths, outer);
    law_shown_for_a_file(dirs, paths, inner);
    let a = choose|a: int| 0 <= a < paths.len() && all[outer] == collapsed(dirs, #[trigger] paths[a]);
    let b = choose|b: int| 0 <= b < paths.len() && all[inner] == collapsed(dirs, #[trigger] paths[b]);
    law_collapsed_is_outermost(dirs, paths[a]);
    law_collapsed_is_outermost(dirs, paths[b]);
    let dir = all[outer].path;
    let path = all[inner].path;
    if dir.len() < path.len() {
        assert(path.drop_last().take(dir.len() as int) =~= dir);
    } else {
        assert(dir =~= path);
    }
}

/// Two paths that lead to the same file lie on the way to each other.
proof fn lemma_prefixes_compare(a: Seq<Seq<char>>, b: Seq<Seq<char>>, file: Seq<Seq<char>>)
    requires
        a.is_prefix_of(file),
        b.is_prefix_of(file),
    ensures
        a.is_prefix_of(b) || b.is_prefix_of(a),
{
    if a.len() <= b.len() {
        assert(a =~= b.take(a.len() as int));
    } else {
        assert(b =~= a.take(b.len() as int));
    }
}

/// Of untracked files in ascending order nothing is displayed twice, and nothing that is in a
/// directory that was displayed.
pub proof fn law_ascending_displayed_once(
    dirs: Set<Seq<Seq<char>>>,
    untracked: UntrackedPaths,
    matching: spec_fn(Seq<Seq<char>>) -> bool,
    k: int,
    l: int,
)
    requires
        untracked.is_flagged_by(matching),
        untracked.is_visited(dirs),
        is_ascending(path_views(untracked.files@)),
        0 <= k < l < untracked.displayed().len(),
    ensures
        ({
            let displayed = untracked.displayed();
            &&& displayed[k]@ != displayed[l]@
            &&& displayed[k].is_dir ==> !displayed[k].path@.is_prefix_of(displayed[l].path@)
        }),
{
    let visits = untracked.visits@;
    let shown = untracked.visits_shown@;
    let files = untracked.shown_files();
    let paths = path_views(untracked.files@);
    let all = collapsed_all(dirs, paths);
    let i = lemma_display_source(visits, shown, files, k);
    let j = lemma_display_source(visits, shown, files, l);
    lemma_display_start(visits, shown, files, i);
    lemma_display_start(visits, shown, files, j);
    let start_i = display_start(visits, shown, files, i);
    let start_j = display_start(visits, shown, files, j);
    let m = k - start_i;
    let n = l - start_j;
    let first = shown_for_visit(visits[i], shown[i], files)[m];
    let second = shown_for_visit(visits[j], shown[j], files)[n];
    assert(untracked.displayed()[start_i + m] == first);
    assert(untracked.displayed()[start_j + n] == second);
    assert(all[i] == visits[i]@ && all[j] == visits[j]@) by {
        assert(visited_views(visits)[i] == visits[i]@);
        assert(visited_views(visits)[j] == visits[j]@);
    }
    if j < i {
        lemma_display_start_grows(visits, shown, files, j + 1, i);
    } else if i == j {
        let flags = in_dir_flags(visits[i].path@, files);
        let (a, b) = lemma_kept_order(files, flags, m, n);
        let (c, d) = lemma_kept_order(untracked.files@, untracked.files_shown@, a, b);
        assert(paths[c] == first.path@);
        assert(paths[d] == second.path@);
        law_no_path_before_itself(paths[c]);
    } else {
        law_ascending_shown_once(dirs, paths, i, j);
        if !shown[i] {
            let a = lemma_file_in_dir(visits[i].path@, files, m);
        }
        if !shown[j] {
            let b = lemma_file_in_dir(visits[j].path@, files, n);
        }
        if first.path@.is_prefix_of(second.path@) && (first.is_dir || first@ == second@) {
            let outer = visits[i].path@;
            let inner = visits[j].path@;
            assert(outer =~= second.path@.take(outer.len() as int));
            lemma_prefixes_compare(outer, inner, second.path@);
            if visits[j].is_dir {
                lemma_no_visit_inside(dirs, paths, j, i);
            } else if inner.is_prefix_of(outer) {
                assert(outer =~= inner);
            }
            assert(outer.is_prefix_of(outer));
        }
    }
}

/// One more item is kept, behind what is kept of those before it, exactly if its flag is set.
pub proof fn law_one_more_item<T>(items: Seq<T>, shown: Seq<bool>, item: T, is_shown: bool)
    requires
        shown.len() == items.len(),
    ensures
        kept_items(Seq::<T>::empty(), Seq::empty()).len() == 0,
        is_shown ==> kept_items(items.push(item), shown.push(is_shown)) == kept_items(
            items,
            shown,
        ).push(item),
        !is_shown ==> kept_items(items.push(item), shown.push(is_shown)) == kept_items(items, shown),
{
    assert(items.push(item).drop_last() =~= items);
    assert(shown.push(is_shown).drop_last() =~= shown);
}

/// One more file is listed for a directory, behind those before it and by itself, exactly if its
/// first components are those of the directory.
pub proof fn law_one_more_file_in_dir(
    dir: Seq<Seq<char>>,
    files: Seq<RepoPathBuf>,
    file: RepoPathBuf,
)
    ensures
        files_in_dir(dir, Seq::empty()).len() == 0,
        ({
            let before = files_in_dir(dir, files);
            let after = files_in_dir(dir, files.push(file));
            if dir.is_prefix_of(file@) {
                &&& after.len() == before.len() + 1
                &&& after.drop_last() == before
                &&& after.last().path == file
                &&& !after.last().is_dir
            } else {
                after == before
            }
        }),
{
    assert(in_dir_flags(dir, files.push(file)) =~= in_dir_flags(dir, files).push(
        dir.is_prefix_of(file@),
    ));
    law_one_more_item(files, in_dir_flags(dir, files), file, dir.is_prefix_of(file@));
    assert(in_dir_flags(dir, Seq::empty()) =~= Seq::empty());
    let before = files_in_dir(dir, files);
    let after = files_in_dir(dir, files.push(file));
    if dir.is_prefix_of(file@) {
        assert(after.drop_last() =~= before);
    } else {
        assert(after =~= before);
    }
}

/// One more visit leaves in place what is displayed for those before it. It adds itself if it is asked
/// for; if it is not, a file adds nothing, and a directory adds the files that are asked for and are
/// in it.
pub proof fn law_one_more_visit(
    visits: Seq<VisitedPath>,
    shown: Seq<bool>,
    files: Seq<RepoPathBuf>,
    visit: VisitedPath,
    is_shown: bool,
)
    requires
        shown.len() == visits.len(),
    ensures
        restricted_visits(Seq::empty(), Seq::empty(), files).len() == 0,
        ({
            let before = restricted_visits(visits, shown, files);
            let after = restricted_visits(visits.push(visit), shown.push(is_shown), files);
            &&& after.take(before.len() as int) == before
            &&& is_shown ==> after == before.push(visit)
            &&& !is_shown && !visit.is_dir ==> after == before
            &&& !is_shown && visit.is_dir ==> after.skip(before.len() as int) == files_in_dir(
                visit.path@,
                files,
            )
        }),
{
    let before = restricted_visits(visits, shown, files);
    let after = restricted_visits(visits.push(visit), shown.push(is_shown), files);
    assert(visits.push(visit).drop_last() =~= visits);
    assert(shown.push(is_shown).drop_last() =~= shown);
    assert(after.take(before.len() as int) =~= before);
    if is_shown {
        assert(after =~= before.push(visit));
    } else if !visit.is_dir {
        assert(after =~= before);
    } else {
        assert(after.skip(before.len() as int) =~= files_in_dir(visit.path@, files));
    }
}

/// What is displayed rests on the visits and their flags, and on the files that are kept by theirs.
/// The flags fit if there is one for each file and each visit, and they tell what matches if each
/// says so of its own path.
pub proof fn law_displayed_by_flags(
    untracked: UntrackedPaths,
    matching: spec_fn(Seq<Seq<char>>) -> bool,
    dirs: Set<Seq<Seq<char>>>,
)
    ensures
        untracked.displayed() == restricted_visits(
            untracked.visits@,
            untracked.visits_shown@,
            kept_items(untracked.files@, untracked.files_shown@),
        ),
        untracked.is_flagged() <==> untracked.files@.len() == untracked.files_shown@.len()
            && untracked.visits@.len() == untracked.visits_shown@.len(),
        untracked.is_flagged_by(matching) <==> {
            &&& untracked.files_shown@ == path_views(untracked.files@).map_values(matching)
            &&& untracked.visits_shown@ == path_views(visited_paths(untracked.visits@)).map_values(
                matching,
            )
        },
        untracked.is_visited(dirs) <==> visited_views(untracked.visits@) == collapsed_all(
            dirs,
            path_views(untracked.files@),
        ),
{
    let files = path_views(untracked.files@).map_values(matching);
    let visits = path_views(visited_paths(untracked.visits@)).map_values(matching);
    if untracked.is_flagged_by(matching) {
        assert(untracked.files_shown@ =~= files);
        assert(untracked.visits_shown@ =~= visits);
    }
    if untracked.files_shown@ == files && untracked.visits_shown@ == visits {
        assert forall|i: int| 0 <= i < untracked.files@.len() implies untracked.files_shown@[i]
            == matching((#[trigger] untracked.files@[i])@) by {
            assert(files[i] == matching(untracked.files@[i]@));
        }
        assert forall|i: int| 0 <= i < untracked.visits@.len() implies untracked.visits_shown@[i]
            == matching((#[trigger] untracked.visits@[i]).path@) by {
            assert(visits[i] == matching(untracked.visits@[i].path@));
        }
    }
}

/// A conflict is unknown exactly if not all of them are known.
pub proof fn law_unknown_conflicts<E>(conflicts: Seq<TreeConflict<E>>)
    ensures
        !is_conflict_unknown(conflicts) <==> forall|i: int|
            0 <= i < conflicts.len() ==> (#[trigger] conflicts[i]).value is Ok,
{
}

} // verus!
