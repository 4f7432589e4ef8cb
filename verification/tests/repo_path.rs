use jj_status::repo_path::InvalidRepoPath;
use jj_status::repo_path::RepoPathBuf;
use jj_status::repo_path::RepoPathUiConverter;

fn repo_path(value: &str) -> RepoPathBuf {
    RepoPathBuf::from_internal_string(value).unwrap()
}

#[test]
fn test_from_internal_string_accepts_paths() {
    for value in ["", "x", "x/y", "dir/file.txt", "\u{e9}/\u{4e2d}"] {
        assert_eq!(repo_path(value).as_internal_file_string(), value);
    }
    assert_eq!(repo_path(""), RepoPathBuf::root());
}

#[test]
fn test_from_internal_string_refuses_empty_components() {
    for value in ["/", "/x", "x/", "x//y", "//"] {
        assert_eq!(
            RepoPathBuf::from_internal_string(value),
            Err(InvalidRepoPath { value: value.to_string() })
        );
    }
}

#[test]
fn test_components() {
    assert!(repo_path("").components().is_empty());
    assert_eq!(repo_path("x").components(), vec!["x".to_string()]);
    assert_eq!(
        repo_path("a/bc/d").components(),
        vec!["a".to_string(), "bc".to_string(), "d".to_string()]
    );
}

#[test]
fn test_to_internal_dir_string() {
    assert_eq!(RepoPathBuf::root().to_internal_dir_string(), "");
    assert_eq!(repo_path("dir").to_internal_dir_string(), "dir/");
    assert_eq!(repo_path("dir/file").to_internal_dir_string(), "dir/file/");
}

#[test]
fn test_starts_with() {
    assert!(repo_path("x").starts_with(&repo_path("")));
    assert!(repo_path("x/y").starts_with(&repo_path("x")));
    assert!(repo_path("x/y").starts_with(&repo_path("x/y")));
    assert!(!repo_path("xy").starts_with(&repo_path("x")));
    assert!(!repo_path("x").starts_with(&repo_path("x/y")));
    assert!(!repo_path("").starts_with(&repo_path("x")));
}

#[test]
fn test_join() {
    assert_eq!(RepoPathBuf::root().join("x"), repo_path("x"));
    assert_eq!(repo_path("a/b").join("c"), repo_path("a/b/c"));
}

#[test]
fn test_paths_shown_to_user() {
    let converter = RepoPathUiConverter { cwd: "/repo/sub".to_string(), base: "/repo".to_string() };
    assert_eq!(converter.format_file_path(&repo_path("sub/file")), "file");
    assert_eq!(converter.format_file_path(&repo_path("other/file")), "../other/file");
    assert_eq!(converter.format_file_path(&repo_path("sub")), ".");
    assert_eq!(converter.format_fs_path(&repo_path("other/file")), "/repo/other/file");
    assert_eq!(converter.format_fs_path(&RepoPathBuf::root()), "/repo");
}
