use jj_status::repo_path::RepoPathBuf;
use jj_status::status::extract_untracked_paths;
use jj_status::untracked::visit_collapsed_untracked_files;
use jj_status::untracked::Step;
use jj_status::untracked::UntrackedVisitor;
use jj_status::untracked::VisitedPath;

fn repo_path(value: &str) -> RepoPathBuf {
    RepoPathBuf::from_internal_string(value).unwrap()
}

/// The directories with one of the files in them.
fn directories(files: &[RepoPathBuf]) -> Vec<RepoPathBuf> {
    let mut dirs = Vec::new();
    for file in files {
        let parts = file.components();
        let mut dir = RepoPathBuf::root();
        for part in &parts[..parts.len() - 1] {
            dir = dir.join(part);
            if !dirs.contains(&dir) {
                dirs.push(dir.clone());
            }
        }
    }
    dirs
}

fn shown(visits: &[VisitedPath]) -> String {
    let mut result = String::new();
    for visit in visits {
        result.push_str("? ");
        if visit.is_dir {
            result.push_str(&visit.path.to_internal_dir_string());
        } else {
            result.push_str(visit.path.as_internal_file_string());
        }
        result.push('\n');
    }
    result
}

fn collect_collapsed_untracked_files_string(
    untracked: &Vec<RepoPathBuf>,
    known: &[RepoPathBuf],
) -> String {
    shown(&visit_collapsed_untracked_files(untracked, &directories(known)))
}

fn paths(values: &[&str]) -> Vec<RepoPathBuf> {
    values.iter().map(|value| repo_path(value)).collect()
}

#[test]
fn test_collapsed_untracked_files() {
    let known = [
        repo_path("top_level_file"),
        // ? "untracked_top_level_file"
        // ? "dir"
        // ? "dir2/c"
        repo_path("dir2/d"),
        // ? "dir3/partially_tracked/e"
        repo_path("dir3/partially_tracked/f"),
        // ? "dir3/fully_untracked/"
        repo_path("dir3/j"),
        // ? "dir3/k"
    ];
    let untracked = vec![
        repo_path("untracked_top_level_file"),
        repo_path("dir/a"),
        repo_path("dir/b"),
        repo_path("dir2/c"),
        repo_path("dir3/partially_tracked/e"),
        repo_path("dir3/fully_untracked/g"),
        repo_path("dir3/fully_untracked/h"),
        repo_path("dir3/k"),
    ];

    assert_eq!(
        collect_collapsed_untracked_files_string(&untracked, &known),
        "? untracked_top_level_file\n\
         ? dir/\n\
         ? dir2/c\n\
         ? dir3/partially_tracked/e\n\
         ? dir3/fully_untracked/\n\
         ? dir3/k\n"
    );
}

#[test]
fn test_outermost_directory_is_shown() {
    let untracked = paths(&["a/b/c/d", "a/b/e", "a/f"]);
    assert_eq!(collect_collapsed_untracked_files_string(&untracked, &[]), "? a/\n");
    assert_eq!(
        collect_collapsed_untracked_files_string(&untracked, &paths(&["a/x"])),
        "? a/b/\n? a/f\n"
    );
    assert_eq!(
        collect_collapsed_untracked_files_string(&untracked, &paths(&["a/b/x"])),
        "? a/b/c/\n? a/b/e\n? a/f\n"
    );
}

#[test]
fn test_ascending_files_are_shown_once() {
    let untracked = paths(&["a", "b/c", "b/d/e", "b2/f", "c/g/h", "c/g/i", "c/j"]);
    let visits = visit_collapsed_untracked_files(&untracked, &directories(&paths(&["c/t"])));
    assert_eq!(shown(&visits), "? a\n? b/\n? b2/\n? c/g/\n? c/j\n");
    for (i, visit) in visits.iter().enumerate() {
        for other in &visits[i + 1..] {
            assert_ne!(visit, other);
            assert!(!visit.is_dir || !other.path.starts_with(&visit.path));
        }
    }
}

#[test]
fn test_directory_is_shown_again_out_of_order() {
    let untracked = paths(&["d/a", "e", "d/b"]);
    assert_eq!(collect_collapsed_untracked_files_string(&untracked, &[]), "? d/\n? e\n? d/\n");
}

#[test]
fn test_every_file_is_covered() {
    let untracked = paths(&["a/b", "a/c", "x/y/z", "x/y/w", "v"]);
    let visits = visit_collapsed_untracked_files(&untracked, &paths(&["x"]));
    for path in &untracked {
        assert!(visits.iter().any(|visit| if visit.is_dir {
            path.starts_with(&visit.path)
        } else {
            visit.path == *path
        }));
    }
    assert_eq!(
        extract_untracked_paths(visits),
        paths(&["a", "x/y", "v"])
    );
}

#[test]
fn test_no_untracked_files() {
    assert!(visit_collapsed_untracked_files(&Vec::new(), &paths(&["a"])).is_empty());
    assert!(extract_untracked_paths(Vec::new()).is_empty());
}

#[test]
fn test_root_as_untracked_file() {
    let visits = visit_collapsed_untracked_files(&vec![RepoPathBuf::root()], &Vec::new());
    assert_eq!(visits, vec![VisitedPath { path: RepoPathBuf::root(), is_dir: false }]);
}

fn ask(step: Step) -> (usize, String, jj_status::untracked::PendingVisit) {
    match step {
        Step::Ask(pending) => {
            (pending.directory_depth(), pending.component().to_string(), pending)
        }
        _ => panic!("the visit was over"),
    }
}

fn show(step: Step) -> (UntrackedVisitor, VisitedPath) {
    match step {
        Step::Show(visitor, visit) => (visitor, visit),
        _ => panic!("nothing was shown"),
    }
}

#[test]
fn test_visitor_asks_once_for_each_directory() {
    let visitor = UntrackedVisitor::new();

    let (depth, component, pending) = ask(visitor.start(repo_path("a/b/f")));
    assert_eq!((depth, component.as_str()), (0, "a"));
    let (depth, component, pending) = ask(pending.answer(true));
    assert_eq!((depth, component.as_str()), (1, "b"));
    let (visitor, visit) = show(pending.answer(true));
    assert_eq!(visit, VisitedPath { path: repo_path("a/b/f"), is_dir: false });

    // Both directories are known by now.
    let (visitor, visit) = show(visitor.start(repo_path("a/b/g")));
    assert_eq!(visit, VisitedPath { path: repo_path("a/b/g"), is_dir: false });
    let (visitor, visit) = show(visitor.start(repo_path("a/h")));
    assert_eq!(visit, VisitedPath { path: repo_path("a/h"), is_dir: false });

    // The first one is.
    let (depth, component, pending) = ask(visitor.start(repo_path("a/c/d/i")));
    assert_eq!((depth, component.as_str()), (1, "c"));
    let (visitor, visit) = show(pending.answer(false));
    assert_eq!(visit, VisitedPath { path: repo_path("a/c"), is_dir: true });

    // The directory stands for what is in it.
    assert!(matches!(visitor.start(repo_path("a/c/j")), Step::Skip(_)));
}
