use jj_lib::merge::Merge;
use jj_status::decimal::decimal_string;
use jj_status::repo_path::RepoPathBuf;
use jj_status::status_templater::BookmarkConflict;
use jj_status::status_templater::Commit;
use jj_status::status_templater::ConflictInfo;
use jj_status::status_templater::FileStatus;
use jj_status::status_templater::StatusEntry;
use jj_status::status_templater::WorkingCopyStatus;

#[test]
fn test_file_status_display() {
    assert_eq!(FileStatus::Added.as_str(), "A");
    assert_eq!(FileStatus::Modified.as_str(), "M");
    assert_eq!(FileStatus::Deleted.as_str(), "D");
    assert_eq!(FileStatus::Renamed.as_str(), "R");
    assert_eq!(FileStatus::Copied.as_str(), "C");
}

#[test]
fn test_file_status_label() {
    assert_eq!(FileStatus::Added.label(), "added");
    assert_eq!(FileStatus::Modified.label(), "modified");
    assert_eq!(FileStatus::Deleted.label(), "removed");
    assert_eq!(FileStatus::Renamed.label(), "renamed");
    assert_eq!(FileStatus::Copied.label(), "copied");
}

#[test]
fn test_file_status_char_and_display_agree() {
    let all = [
        FileStatus::Added,
        FileStatus::Modified,
        FileStatus::Deleted,
        FileStatus::Renamed,
        FileStatus::Copied,
    ];
    for (i, status) in all.iter().enumerate() {
        assert_eq!(status.as_str(), String::from(status.char()));
        assert_eq!(status.to_string(), status.as_str());
        for other in &all[i + 1..] {
            assert_ne!(status.char(), other.char());
            assert_ne!(status.label(), other.label());
        }
    }
}

#[test]
fn test_file_change_new() {
    let path = RepoPathBuf::from_internal_string("test.txt").unwrap();
    let change = StatusEntry::new(path.clone(), FileStatus::Added);

    assert_eq!(change.path, path);
    assert_eq!(change.status, FileStatus::Added);
    assert_eq!(change.copy_source, None);
    assert!(!change.has_copy_source());
}

#[test]
fn test_file_change_with_copy_source() {
    let path = RepoPathBuf::from_internal_string("dest.txt").unwrap();
    let source = RepoPathBuf::from_internal_string("src.txt").unwrap();
    let change = StatusEntry::with_copy_source(path.clone(), FileStatus::Renamed, source.clone());

    assert_eq!(change.path, path);
    assert_eq!(change.status, FileStatus::Renamed);
    assert_eq!(change.copy_source, Some(source));
    assert!(change.has_copy_source());
}

#[test]
fn test_copies_and_renames_without_a_source() {
    let change = |status| StatusEntry::new(RepoPathBuf::root(), status);
    assert!(change(FileStatus::Renamed).has_copy_source());
    assert!(change(FileStatus::Copied).has_copy_source());
    assert!(!change(FileStatus::Modified).has_copy_source());
    assert!(!change(FileStatus::Deleted).has_copy_source());
    let from = RepoPathBuf::from_internal_string("from").unwrap();
    assert!(StatusEntry::with_copy_source(RepoPathBuf::root(), FileStatus::Added, from)
        .has_copy_source());
}

#[test]
fn test_conflict_info() {
    let path = RepoPathBuf::from_internal_string("conflicted.txt").unwrap();
    let conflict = ConflictInfo::new(path.clone(), 3);

    assert_eq!(conflict.path, path);
    assert_eq!(conflict.num_sides, 3);
    assert_eq!(conflict.sides_description(), "3-sided conflict");
}

#[test]
fn test_sides_description_of_large_numbers() {
    let describe = |sides| ConflictInfo::new(RepoPathBuf::root(), sides).sides_description();
    assert_eq!(describe(0), "0-sided conflict");
    assert_eq!(describe(10), "10-sided conflict");
    assert_eq!(describe(1203), "1203-sided conflict");
    assert_eq!(describe(usize::MAX), format!("{}-sided conflict", usize::MAX));
    assert_ne!(describe(11), describe(111));
}

#[test]
fn test_decimal_string() {
    for n in [0, 1, 9, 10, 99, 100, 4096, usize::MAX] {
        assert_eq!(decimal_string(n), format!("{n}"));
    }
}

#[test]
fn test_bookmark_conflict_local() {
    let bookmark = BookmarkConflict::new("main".to_string());

    assert_eq!(bookmark.name, "main");
    assert_eq!(bookmark.remote, None);
    assert_eq!(bookmark.full_name(), "main");
}

#[test]
fn test_bookmark_conflict_remote() {
    let bookmark = BookmarkConflict::new_remote("main".to_string(), "origin".to_string());

    assert_eq!(bookmark.name, "main");
    assert_eq!(bookmark.remote, Some("origin".to_string()));
    assert_eq!(bookmark.full_name(), "main@origin");
}

#[test]
fn test_working_copy_status_default() {
    let status = WorkingCopyStatus::default();

    assert!(status.file_changes.is_empty());
    assert!(status.untracked_paths.is_empty());
    assert!(status.conflicts.is_empty());
    assert!(status.local_bookmark_conflicts.is_empty());
    assert!(status.remote_bookmark_conflicts.is_empty());

    assert!(!status.has_file_changes());
    assert!(!status.has_untracked_paths());
    assert!(!status.has_conflicts());
    assert!(!status.has_bookmark_conflicts());
}

#[test]
fn test_working_copy_status_predicates() {
    let mut status = WorkingCopyStatus::new();

    // Add a file change
    status.file_changes.push(StatusEntry::new(
        RepoPathBuf::from_internal_string("file.txt").unwrap(),
        FileStatus::Modified,
    ));
    assert!(status.has_file_changes());

    // Add untracked path
    status.untracked_paths.push(RepoPathBuf::from_internal_string("untracked.txt").unwrap());
    assert!(status.has_untracked_paths());

    // Add conflict
    status.conflicts.push(ConflictInfo::new(
        RepoPathBuf::from_internal_string("conflict.txt").unwrap(),
        2,
    ));
    assert!(status.has_conflicts());

    // Add bookmark conflict
    status.local_bookmark_conflicts.push(BookmarkConflict::new("main".to_string()));
    assert!(status.has_bookmark_conflicts());
}

#[test]
fn test_bookmark_predicates_by_side() {
    let mut local = WorkingCopyStatus::new();
    local.local_bookmark_conflicts.push(BookmarkConflict::new("main".to_string()));
    assert!(local.has_local_bookmark_conflicts());
    assert!(!local.has_remote_bookmark_conflicts());
    assert!(local.has_bookmark_conflicts());

    let mut remote = WorkingCopyStatus::new();
    remote
        .remote_bookmark_conflicts
        .push(BookmarkConflict::new_remote("main".to_string(), "origin".to_string()));
    assert!(!remote.has_local_bookmark_conflicts());
    assert!(remote.has_remote_bookmark_conflicts());
    assert!(remote.has_bookmark_conflicts());
}

#[test]
fn test_commit_conflict() {
    let resolved = Commit { id: vec![1], tree_ids: Merge::resolved(Some(7)) };
    let conflicted =
        Commit { id: vec![2], tree_ids: Merge::from_vec(vec![Some(1), Some(2), Some(3)]) };
    assert!(!resolved.has_conflict());
    assert!(conflicted.has_conflict());
    assert!(conflicted.clone().has_conflict());
    assert_eq!(conflicted.clone().tree_ids, conflicted.tree_ids);
    assert_eq!(conflicted.clone().id, vec![2]);
}

#[test]
fn test_status_clone_says_the_same() {
    let mut status = WorkingCopyStatus::new();
    status.file_changes.push(StatusEntry::with_copy_source(
        RepoPathBuf::from_internal_string("to").unwrap(),
        FileStatus::Copied,
        RepoPathBuf::from_internal_string("from").unwrap(),
    ));
    status
        .remote_bookmark_conflicts
        .push(BookmarkConflict::new_remote("main".to_string(), "origin".to_string()));
    status.working_copy = Some(Commit { id: vec![9], tree_ids: Merge::resolved(None) });
    status.parents.push(Commit { id: vec![8], tree_ids: Merge::resolved(Some(3)) });
    assert_eq!(format!("{:?}", status.clone()), format!("{:?}", status));
}

#[test]
fn test_complete_template_pipeline() {
    // Build status with sample data
    let mut status = WorkingCopyStatus::new();

    status.file_changes.push(StatusEntry::new(
        RepoPathBuf::from_internal_string("src/main.rs").unwrap(),
        FileStatus::Modified,
    ));
    status.file_changes.push(StatusEntry::new(
        RepoPathBuf::from_internal_string("README.md").unwrap(),
        FileStatus::Added,
    ));

    status.untracked_paths.push(RepoPathBuf::from_internal_string("test.txt").unwrap());

    status.conflicts.push(ConflictInfo::new(
        RepoPathBuf::from_internal_string("conflict.rs").unwrap(),
        2,
    ));

    status.local_bookmark_conflicts.push(BookmarkConflict::new("main".to_string()));

    // Verify all predicates work
    assert!(status.has_file_changes());
    assert!(status.has_untracked_paths());
    assert!(status.has_conflicts());
    assert!(status.has_bookmark_conflicts());

    // Verify we can access the data
    assert_eq!(status.file_changes.len(), 2);
    assert_eq!(status.file_changes[0].status, FileStatus::Modified);
    assert_eq!(status.file_changes[1].status, FileStatus::Added);

    assert_eq!(status.conflicts[0].num_sides, 2);
    assert_eq!(status.conflicts[0].sides_description(), "2-sided conflict");

    assert_eq!(status.local_bookmark_conflicts[0].name, "main");
    assert_eq!(status.local_bookmark_conflicts[0].full_name(), "main");
}
