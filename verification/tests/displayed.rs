use jj_lib::merge::Merge;
use jj_status::displayed::build_displayed_status;
use jj_status::displayed::restrict_items;
use jj_status::displayed::restrict_visits;
use jj_status::displayed::UntrackedPaths;
use jj_status::repo_path::RepoPathBuf;
use jj_status::status::CopiesTreeDiffEntry;
use jj_status::status::CopiesTreeDiffEntryPath;
use jj_status::status::Diff;
use jj_status::status::LocalBookmark;
use jj_status::status::TreeConflict;
use jj_status::status_templater::Commit;
use jj_status::untracked::visit_collapsed_untracked_files;
use jj_status::untracked::VisitedPath;

fn repo_path(value: &str) -> RepoPathBuf {
    RepoPathBuf::from_internal_string(value).unwrap()
}

fn paths(values: &[&str]) -> Vec<RepoPathBuf> {
    values.iter().map(|value| repo_path(value)).collect()
}

fn dir(path: &str) -> VisitedPath {
    VisitedPath { path: repo_path(path), is_dir: true }
}

fn file(path: &str) -> VisitedPath {
    VisitedPath { path: repo_path(path), is_dir: false }
}

fn covers(visit: &VisitedPath, path: &RepoPathBuf) -> bool {
    if visit.is_dir {
        path.starts_with(&visit.path)
    } else {
        visit.path == *path
    }
}

/// Visits the files, and flags what is at or below one of the paths `asked`.
fn untracked(files: &[&str], known_dirs: &[&str], asked: &[&str]) -> UntrackedPaths {
    let asked = paths(asked);
    let matches = |path: &RepoPathBuf| asked.iter().any(|base| path.starts_with(base));
    let files = paths(files);
    let visits = visit_collapsed_untracked_files(&files, &paths(known_dirs));
    UntrackedPaths {
        files_shown: files.iter().map(matches).collect(),
        visits_shown: visits.iter().map(|visit| matches(&visit.path)).collect(),
        files,
        visits,
    }
}

#[test]
fn test_restrict_items() {
    assert_eq!(restrict_items(vec![1, 2, 3, 4], &vec![true, false, false, true]), vec![1, 4]);
    assert_eq!(restrict_items(vec![1, 2], &vec![true, true]), vec![1, 2]);
    assert_eq!(restrict_items(vec![1, 2], &vec![false, false]), Vec::<i32>::new());
    assert_eq!(restrict_items(Vec::<i32>::new(), &Vec::new()), Vec::<i32>::new());
}

#[test]
fn test_restrict_visits() {
    let visits = || vec![file("a"), dir("b"), file("c"), dir("d")];
    let files = paths(&["b/x", "b/y/z", "b2", "c", "d/w"]);
    assert_eq!(
        restrict_visits(visits(), &vec![false, true, true, true], &files),
        vec![dir("b"), file("c"), dir("d")]
    );
    assert_eq!(
        restrict_visits(visits(), &vec![true, false, false, false], &files),
        vec![file("a"), file("b/x"), file("b/y/z"), file("d/w")]
    );
    assert_eq!(restrict_visits(visits(), &vec![true; 4], &Vec::new()), visits());
    assert!(restrict_visits(visits(), &vec![false; 4], &Vec::new()).is_empty());
}

#[test]
fn test_file_in_untracked_directory_is_displayed() {
    let files = ["dir/a", "dir/b", "e"];
    assert_eq!(untracked(&files, &[], &["dir/a"]).into_displayed(), vec![file("dir/a")]);
    assert_eq!(untracked(&files, &[], &["dir"]).into_displayed(), vec![dir("dir")]);
    assert_eq!(untracked(&files, &[], &["e"]).into_displayed(), vec![file("e")]);
    assert_eq!(
        untracked(&files, &[], &["dir/a", "dir/b"]).into_displayed(),
        vec![file("dir/a"), file("dir/b")]
    );
    assert_eq!(untracked(&files, &[], &["dir/c"]).into_displayed(), Vec::new());
    assert_eq!(untracked(&files, &[], &[""]).into_displayed(), vec![dir("dir"), file("e")]);
}

#[test]
fn test_what_is_asked_for_is_displayed_once() {
    let files = ["a", "b/c", "b/d/e", "b/d/f", "b2/g", "c/h", "c/i/j"];
    for asked in [vec![""], vec!["b/d"], vec!["a", "b/d/f", "c"], vec!["b/c", "b2"], vec!["x"]] {
        let all = untracked(&files, &["c"], &asked);
        let wanted = restrict_items(paths(&files), &all.files_shown);
        let displayed = all.into_displayed();
        for path in &wanted {
            assert_eq!(displayed.iter().filter(|visit| covers(visit, path)).count(), 1);
        }
        for visit in &displayed {
            let asked = paths(&asked);
            assert!(asked.iter().any(|base| visit.path.starts_with(base)));
        }
    }
}

fn conflict() -> Merge<Option<u64>> {
    Merge::from_vec(vec![Some(1), Some(2), Some(3)])
}

fn commit(id: u8) -> Commit {
    Commit { id: vec![id], tree_ids: Merge::resolved(Some(1)) }
}

#[test]
fn test_displayed_status_is_restricted() {
    let build = |value: Result<Merge<Option<u64>>, &'static str>| {
        build_displayed_status(
            vec![CopiesTreeDiffEntry {
                path: CopiesTreeDiffEntryPath { source: None, target: repo_path("src/a") },
                values: Ok(Diff {
                    before: Merge::resolved(None),
                    after: Merge::resolved(Some(1)),
                }),
            }],
            Ok(untracked(&["doc/x", "src/b", "test/y", "test/z"], &["src"], &["src", "test/z"])),
            vec![
                TreeConflict { path: repo_path("doc/c"), value },
                TreeConflict { path: repo_path("src/d"), value: Ok(conflict()) },
            ],
            &vec![false, true],
            &vec![LocalBookmark { name: "main".to_string(), target: conflict() }],
            &Vec::new(),
            Some(commit(1)),
            vec![commit(2)],
        )
    };
    let status = build(Ok(conflict())).unwrap();
    assert_eq!(status.file_changes[0].path, repo_path("src/a"));
    assert_eq!(status.untracked_paths, paths(&["src/b", "test/z"]));
    assert_eq!(status.conflicts.len(), 1);
    assert_eq!(status.conflicts[0].path, repo_path("src/d"));
    assert!(status.has_local_bookmark_conflicts());
    assert_eq!(status.working_copy.unwrap().id, vec![1]);
    assert_eq!(status.parents.len(), 1);

    assert_eq!(build(Err("lost")).unwrap_err(), "lost");
}
