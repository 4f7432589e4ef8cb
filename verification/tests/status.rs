use jj_lib::merge::Merge;
use jj_status::repo_path::RepoPathBuf;
use jj_status::status::build_working_copy_status;
use jj_status::status::can_tell_changes;
use jj_status::status::checked_file_change;
use jj_status::status::cmd_status;
use jj_status::status::diff_entry_to_file_change;
use jj_status::status::extract_bookmark_conflicts;
use jj_status::status::extract_conflicts;
use jj_status::status::extract_file_changes;
use jj_status::status::status_sections;
use jj_status::status::CopiesTreeDiffEntry;
use jj_status::status::CopiesTreeDiffEntryPath;
use jj_status::status::CopyOperation;
use jj_status::status::Diff;
use jj_status::status::LocalBookmark;
use jj_status::status::RemoteBookmark;
use jj_status::status::StatusArgs;
use jj_status::status::StatusSection;
use jj_status::status::TreeConflict;
use jj_status::status_templater::Commit;
use jj_status::status_templater::FileStatus;
use jj_status::untracked::VisitedPath;

type Value = Merge<Option<u64>>;
type Entry = CopiesTreeDiffEntry<&'static str>;

fn repo_path(value: &str) -> RepoPathBuf {
    RepoPathBuf::from_internal_string(value).unwrap()
}

fn absent() -> Value {
    Merge::resolved(None)
}

fn present(n: u64) -> Value {
    Merge::resolved(Some(n))
}

fn conflict() -> Value {
    Merge::from_vec(vec![Some(1), Some(2), Some(3)])
}

fn at(target: &str) -> CopiesTreeDiffEntryPath {
    CopiesTreeDiffEntryPath { source: None, target: repo_path(target) }
}

fn copied(source: &str, op: CopyOperation, target: &str) -> CopiesTreeDiffEntryPath {
    CopiesTreeDiffEntryPath { source: Some((repo_path(source), op)), target: repo_path(target) }
}

fn status_of(before: Value, after: Value) -> FileStatus {
    let entry = diff_entry_to_file_change(&at("f"), &Diff { before, after });
    assert_eq!(entry.path, repo_path("f"));
    assert!(!entry.has_copy_source());
    entry.status
}

#[test]
fn test_status_of_changes() {
    assert_eq!(status_of(absent(), present(1)), FileStatus::Added);
    assert_eq!(status_of(present(1), absent()), FileStatus::Deleted);
    assert_eq!(status_of(present(1), present(2)), FileStatus::Modified);
    assert_eq!(status_of(absent(), conflict()), FileStatus::Added);
    assert_eq!(
        status_of(Merge::from_vec(vec![None, None, None]), absent()),
        FileStatus::Deleted
    );
}

#[test]
fn test_status_of_copies() {
    let values = Diff { before: absent(), after: absent() };
    let entry = diff_entry_to_file_change(&copied("a", CopyOperation::Copy, "b"), &values);
    assert_eq!(entry.status, FileStatus::Copied);
    assert_eq!(entry.copy_source, Some(repo_path("a")));
    let entry = diff_entry_to_file_change(&copied("a", CopyOperation::Rename, "b"), &values);
    assert_eq!(entry.status, FileStatus::Renamed);
    assert_eq!(entry.copy_source, Some(repo_path("a")));
    assert_eq!(entry.path, repo_path("b"));
}

#[test]
fn test_change_of_nothing_cannot_be_told() {
    let values = Diff { before: absent(), after: absent() };
    assert!(checked_file_change(&at("f"), &values).is_none());
    assert!(checked_file_change(&copied("a", CopyOperation::Copy, "b"), &values).is_some());

    let nothing = || Entry { path: at("f"), values: Ok(Diff { before: absent(), after: absent() }) };
    let unknown = || Entry { path: at("g"), values: Err("lost") };
    assert!(!can_tell_changes(&vec![nothing(), unknown()]));
    assert!(can_tell_changes(&vec![unknown(), nothing()]));
    assert!(can_tell_changes(&Vec::<Entry>::new()));
}

fn added(path: &str) -> Entry {
    Entry { path: at(path), values: Ok(Diff { before: absent(), after: present(1) }) }
}

#[test]
fn test_extract_file_changes() {
    let changes = extract_file_changes(vec![
        added("a"),
        Entry {
            path: copied("a", CopyOperation::Copy, "b"),
            values: Ok(Diff { before: present(1), after: present(1) }),
        },
    ])
    .unwrap();
    assert_eq!(changes.len(), 2);
    assert_eq!(changes[0].path, repo_path("a"));
    assert_eq!(changes[0].status, FileStatus::Added);
    assert_eq!(changes[1].path, repo_path("b"));
    assert_eq!(changes[1].status, FileStatus::Copied);
}

#[test]
fn test_extract_file_changes_gives_first_error() {
    let failed = |reason| Entry { path: at("x"), values: Err(reason) };
    assert_eq!(
        extract_file_changes(vec![added("a"), failed("first"), failed("second")]).unwrap_err(),
        "first"
    );
}

fn tree_conflict(
    path: &str,
    value: Result<Value, &'static str>,
) -> TreeConflict<&'static str> {
    TreeConflict { path: repo_path(path), value }
}

#[test]
fn test_extract_conflicts() {
    let infos = extract_conflicts(vec![
        tree_conflict("a", Ok(conflict())),
        tree_conflict("b", Ok(Merge::from_vec(vec![Some(1); 5]))),
        tree_conflict("c", Ok(present(1))),
    ])
    .unwrap();
    assert_eq!(infos.len(), 3);
    assert_eq!((&infos[0].path, infos[0].num_sides), (&repo_path("a"), 2));
    assert_eq!((&infos[1].path, infos[1].num_sides), (&repo_path("b"), 3));
    assert_eq!((&infos[2].path, infos[2].num_sides), (&repo_path("c"), 1));
}

#[test]
fn test_extract_conflicts_gives_first_error() {
    assert_eq!(
        extract_conflicts(vec![
            tree_conflict("a", Ok(conflict())),
            tree_conflict("b", Err("lost")),
            tree_conflict("c", Err("found")),
        ])
        .unwrap_err(),
        "lost"
    );
}

fn local(name: &str, target: Value) -> LocalBookmark {
    LocalBookmark { name: name.to_string(), target }
}

fn remote(name: &str, remote: &str, target: Value) -> RemoteBookmark {
    RemoteBookmark { name: name.to_string(), remote: remote.to_string(), target }
}

#[test]
fn test_extract_bookmark_conflicts() {
    let (locals, remotes) = extract_bookmark_conflicts(
        &vec![local("a", conflict()), local("b", present(1)), local("c", conflict())],
        &vec![remote("a", "origin", absent()), remote("d", "up", conflict())],
    );
    let names: Vec<String> = locals.iter().map(|bookmark| bookmark.full_name()).collect();
    assert_eq!(names, vec!["a".to_string(), "c".to_string()]);
    assert!(locals.iter().all(|bookmark| bookmark.remote.is_none()));
    let names: Vec<String> = remotes.iter().map(|bookmark| bookmark.full_name()).collect();
    assert_eq!(names, vec!["d@up".to_string()]);
}

fn commit(id: u8, tree_ids: Value) -> Commit {
    Commit { id: vec![id], tree_ids }
}

#[test]
fn test_build_working_copy_status() {
    let status = build_working_copy_status(
        vec![added("a")],
        Ok(vec![VisitedPath { path: repo_path("dir"), is_dir: true }]),
        vec![tree_conflict("c", Ok(conflict()))],
        &vec![local("main", conflict())],
        &vec![remote("main", "origin", present(1))],
        Some(commit(1, present(1))),
        vec![commit(2, present(2)), commit(3, present(3))],
    )
    .unwrap();
    assert!(status.has_file_changes());
    assert_eq!(status.untracked_paths, vec![repo_path("dir")]);
    assert_eq!(status.conflicts[0].sides_description(), "2-sided conflict");
    assert!(status.has_local_bookmark_conflicts());
    assert!(!status.has_remote_bookmark_conflicts());
    assert_eq!(status.working_copy.unwrap().id, vec![1]);
    assert_eq!(status.parents.len(), 2);
}

fn build_error(
    changes: Result<(), &'static str>,
    untracked: Result<Vec<VisitedPath>, &'static str>,
    conflicts: Result<(), &'static str>,
) -> &'static str {
    let entry = match changes {
        Ok(()) => added("a"),
        Err(reason) => Entry { path: at("a"), values: Err(reason) },
    };
    let value = match conflicts {
        Ok(()) => Ok(conflict()),
        Err(reason) => Err(reason),
    };
    build_working_copy_status(
        vec![entry],
        untracked,
        vec![tree_conflict("c", value)],
        &Vec::new(),
        &Vec::new(),
        None,
        Vec::new(),
    )
    .unwrap_err()
}

#[test]
fn test_build_working_copy_status_error_order() {
    assert_eq!(build_error(Err("changes"), Err("untracked"), Err("conflicts")), "changes");
    assert_eq!(build_error(Ok(()), Err("untracked"), Err("conflicts")), "untracked");
    assert_eq!(build_error(Ok(()), Ok(Vec::new()), Err("conflicts")), "conflicts");
}

fn args(template: Option<&str>) -> StatusArgs {
    StatusArgs { paths: Vec::new(), template: template.map(|text| text.to_string()) }
}

#[test]
fn test_sections() {
    let clean = || commit(1, present(1));
    let conflicted = || commit(2, conflict());
    let shown = |template, working_copy, parents| {
        status_sections(&args(template), &working_copy, &parents)
    };

    assert_eq!(shown(None, None, Vec::new()), vec![StatusSection::NoWorkingCopy]);
    assert_eq!(shown(None, Some(clean()), vec![clean()]), vec![StatusSection::Template]);
    assert_eq!(
        shown(None, Some(conflicted()), vec![conflicted()]),
        vec![StatusSection::Template, StatusSection::UnresolvedConflicts]
    );
    assert_eq!(
        shown(None, Some(clean()), vec![clean(), conflicted(), conflicted()]),
        vec![StatusSection::Template, StatusSection::ResolvedConflict]
    );
    assert_eq!(
        shown(Some("x"), Some(conflicted()), vec![clean()]),
        vec![StatusSection::Template]
    );
    assert_eq!(
        shown(Some("x"), Some(conflicted()), vec![conflicted()]),
        vec![StatusSection::Template, StatusSection::ResolvedConflict]
    );
}

#[test]
fn test_section_texts() {
    let warning = StatusSection::UnresolvedConflicts;
    assert_eq!(warning.label(), "warning");
    assert_eq!(warning.heading(), "Warning: ");
    assert_eq!(warning.message(), "There are unresolved conflicts at these paths:");
    let hint = StatusSection::ResolvedConflict;
    assert_eq!(hint.label(), "hint");
    assert_eq!(hint.heading(), "Hint: ");
    assert_eq!(hint.message(), "Conflict in parent commit has been resolved in working copy");
    assert_eq!(StatusSection::NoWorkingCopy.message(), "No working copy");
    assert_eq!(StatusSection::NoWorkingCopy.heading(), "");
    assert_eq!(StatusSection::Template.message(), "");
}

#[test]
fn test_cmd_status_template() {
    let configured = || Ok::<String, &str>("configured".to_string());
    let no_parents = || Ok::<Vec<Commit>, &str>(Vec::new());
    let output = cmd_status(&args(None), configured(), &None, no_parents()).unwrap();
    assert_eq!(output.template, "configured");
    assert_eq!(output.sections, vec![StatusSection::NoWorkingCopy]);

    let output = cmd_status(&args(Some("given")), configured(), &None, no_parents()).unwrap();
    assert_eq!(output.template, "given");

    let missing = || Err::<String, &str>("no such setting");
    assert_eq!(
        cmd_status(&args(None), missing(), &None, no_parents()).unwrap_err(),
        "no such setting"
    );
    assert!(cmd_status(&args(Some("given")), missing(), &None, no_parents()).is_ok());
}

#[test]
fn test_cmd_status_parents() {
    let configured = || Ok::<String, &str>("configured".to_string());
    let working_copy = || Some(commit(1, present(1)));
    let output = cmd_status(
        &args(None),
        configured(),
        &working_copy(),
        Ok(vec![commit(2, present(2)), commit(3, conflict())]),
    )
    .unwrap();
    assert_eq!(
        output.sections,
        vec![StatusSection::Template, StatusSection::ResolvedConflict]
    );

    let lost = || Err::<Vec<Commit>, &str>("no such commit");
    assert_eq!(
        cmd_status(&args(None), configured(), &working_copy(), lost()).unwrap_err(),
        "no such commit"
    );
    assert_eq!(
        cmd_status(&args(None), Err("no such setting"), &working_copy(), lost()).unwrap_err(),
        "no such setting"
    );
    let output = cmd_status(&args(None), configured(), &None, lost()).unwrap();
    assert_eq!(output.sections, vec![StatusSection::NoWorkingCopy]);
}
