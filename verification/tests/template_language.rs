use jj_lib::merge::Merge;
use jj_status::method_table::FunctionCall;
use jj_status::method_table::MethodTable;
use jj_status::method_table::Span;
use jj_status::method_table::TemplateParseError;
use jj_status::methods::string_or_default;
use jj_status::methods::Built;
use jj_status::methods::CommitDelegation;
use jj_status::methods::CommitMethodTable;
use jj_status::methods::CommitValue;
use jj_status::methods::CoreValue;
use jj_status::property::CommitProperty;
use jj_status::property::CommitPropertyKind;
use jj_status::property::CoreProperty;
use jj_status::property::Delegate;
use jj_status::property::StatusTemplatePropertyKind;
use jj_status::repo_path::RepoPathBuf;
use jj_status::repo_path::RepoPathUiConverter;
use jj_status::status_templater::BookmarkConflict;
use jj_status::status_templater::Commit;
use jj_status::status_templater::ConflictInfo;
use jj_status::status_templater::FileStatus;
use jj_status::status_templater::StatusEntry;
use jj_status::status_templater::WorkingCopyStatus;
use jj_status::template_language::wrap_commit_result;
use jj_status::template_language::StatusTemplateLanguage;

type Property = StatusTemplatePropertyKind<u32, u64>;

fn repo_path(value: &str) -> RepoPathBuf {
    RepoPathBuf::from_internal_string(value).unwrap()
}

#[derive(Clone, Copy, Debug, PartialEq, Eq)]
enum ListMethod {
    Len,
    Mapped,
}

fn language() -> StatusTemplateLanguage<ListMethod> {
    let mut list_methods = MethodTable::new();
    list_methods.insert("len", ListMethod::Len);
    list_methods.insert("map", ListMethod::Mapped);
    StatusTemplateLanguage::new(
        RepoPathUiConverter { cwd: "/repo/src".to_string(), base: "/repo".to_string() },
        list_methods,
    )
}

const SPAN: Span = Span { start: 4, end: 9 };

fn call_with(name: &str, num_arguments: usize) -> FunctionCall {
    FunctionCall { name: name.to_string(), name_span: SPAN, num_arguments }
}

fn call(name: &str) -> FunctionCall {
    call_with(name, 0)
}

fn build(property: Property, name: &str) -> Built<u32, u64, ListMethod> {
    language().build_method(property, &call(name)).unwrap()
}

fn text(built: Built<u32, u64, ListMethod>) -> String {
    match built {
        Built::CoreValue(CoreValue::String(text)) => text,
        other => panic!("no string: {other:?}"),
    }
}

fn flag(built: Built<u32, u64, ListMethod>) -> bool {
    match built {
        Built::CoreValue(CoreValue::Boolean(flag)) => flag,
        other => panic!("no boolean: {other:?}"),
    }
}

fn property(built: Built<u32, u64, ListMethod>) -> Property {
    match built {
        Built::Property(property) => property,
        other => panic!("no property: {other:?}"),
    }
}

fn sample_status() -> WorkingCopyStatus {
    let mut status = WorkingCopyStatus::new();
    status.file_changes.push(StatusEntry::new(repo_path("src/main.rs"), FileStatus::Modified));
    status.conflicts.push(ConflictInfo::new(repo_path("c"), 2));
    status
        .remote_bookmark_conflicts
        .push(BookmarkConflict::new_remote("main".to_string(), "origin".to_string()));
    status.working_copy = Some(Commit { id: vec![1, 2], tree_ids: Merge::resolved(Some(1)) });
    status.parents.push(Commit { id: vec![3], tree_ids: Merge::resolved(Some(2)) });
    status
}

fn error(property: Property, call: &FunctionCall) -> TemplateParseError {
    language().build_method(property, call).unwrap_err()
}

#[test]
fn test_status_template_property_kind_type_names() {
    // Test type names for property kinds
    let file_change =
        StatusEntry::new(RepoPathBuf::from_internal_string("test.txt").unwrap(), FileStatus::Added);
    let property = Property::StatusEntry(file_change);
    assert_eq!(property.typename(), "StatusEntry");

    let conflict = ConflictInfo::new(RepoPathBuf::from_internal_string("test.txt").unwrap(), 2);
    let property = Property::ConflictInfo(conflict);
    assert_eq!(property.typename(), "ConflictInfo");

    let bookmark = BookmarkConflict::new("main".to_string());
    let property = Property::BookmarkConflict(bookmark);
    assert_eq!(property.typename(), "BookmarkConflict");
}

#[test]
fn test_all_type_names() {
    let names = [
        Property::WorkingCopyStatus(WorkingCopyStatus::new()).typename().to_string(),
        Property::StatusEntryList(Vec::new()).typename().to_string(),
        Property::RepoPath(RepoPathBuf::root()).typename().to_string(),
        Property::RepoPathList(Vec::new()).typename().to_string(),
        Property::ConflictInfoList(Vec::new()).typename().to_string(),
        Property::BookmarkConflictList(Vec::new()).typename().to_string(),
        Property::Core(CoreProperty { typename: "Integer".to_string(), property: 4 })
            .typename()
            .to_string(),
        commit_property(CommitPropertyKind::Commit, "Commit").typename().to_string(),
    ];
    assert_eq!(
        names,
        [
            "WorkingCopyStatus",
            "List<StatusEntry>",
            "RepoPath",
            "List<RepoPath>",
            "List<ConflictInfo>",
            "List<BookmarkConflict>",
            "Integer",
            "Commit",
        ]
    );
}

fn commit_property(kind: CommitPropertyKind, typename: &str) -> Property {
    Property::CommitTemplate(CommitProperty {
        typename: typename.to_string(),
        kind,
        property: 77,
    })
}

fn core_property(property: u32) -> Property {
    Property::Core(CoreProperty { typename: "String".to_string(), property })
}

#[test]
fn test_status_types_convert_to_nothing() {
    let path = || Property::RepoPath(repo_path("a"));
    assert_eq!(path().try_into_boolean(), None);
    assert_eq!(path().try_into_integer(), None);
    assert_eq!(path().try_into_stringify(), None);
    assert_eq!(path().try_into_serialize(), None);
    assert_eq!(path().try_into_template(), None);
    assert_eq!(Property::StatusEntryList(Vec::new()).try_into_boolean(), None);
    assert_eq!(path().try_into_eq(path()), None);
    assert_eq!(path().try_into_cmp(core_property(1)), None);
}

#[test]
fn test_other_types_are_delegated() {
    let core = |property| CoreProperty { typename: "String".to_string(), property };
    assert_eq!(core_property(5).try_into_boolean(), Some(Delegate::Core(core(5))));
    assert_eq!(core_property(5).try_into_template(), Some(Delegate::Core(core(5))));
    assert_eq!(
        commit_property(CommitPropertyKind::Commit, "Commit").try_into_stringify(),
        Some(Delegate::CommitTemplate(CommitProperty {
            typename: "Commit".to_string(),
            kind: CommitPropertyKind::Commit,
            property: 77,
        }))
    );
    assert_eq!(core_property(1).try_into_eq(core_property(2)), Some((core(1), core(2))));
    assert_eq!(core_property(2).try_into_cmp(core_property(1)), Some((core(2), core(1))));
    let commit = || commit_property(CommitPropertyKind::Commit, "Commit");
    assert_eq!(commit().try_into_eq(commit()), None);
    assert_eq!(core_property(1).try_into_cmp(commit()), None);
}

#[test]
fn test_working_copy_status_methods() {
    let status = || Property::WorkingCopyStatus(sample_status());
    assert!(flag(build(status(), "has_file_changes")));
    assert!(!flag(build(status(), "has_untracked_paths")));
    assert!(flag(build(status(), "has_conflicts")));
    assert!(flag(build(status(), "has_bookmark_conflicts")));
    assert!(!flag(build(status(), "has_local_bookmark_conflicts")));
    assert!(flag(build(status(), "has_remote_bookmark_conflicts")));

    match property(build(status(), "file_changes")) {
        Property::StatusEntryList(list) => assert_eq!(list[0].path, repo_path("src/main.rs")),
        other => panic!("{other:?}"),
    }
    match property(build(status(), "untracked_paths")) {
        Property::RepoPathList(list) => assert!(list.is_empty()),
        other => panic!("{other:?}"),
    }
    match property(build(status(), "conflicts")) {
        Property::ConflictInfoList(list) => assert_eq!(list.len(), 1),
        other => panic!("{other:?}"),
    }
    match property(build(status(), "local_bookmark_conflicts")) {
        Property::BookmarkConflictList(list) => assert!(list.is_empty()),
        other => panic!("{other:?}"),
    }
    match property(build(status(), "remote_bookmark_conflicts")) {
        Property::BookmarkConflictList(list) => assert_eq!(list[0].full_name(), "main@origin"),
        other => panic!("{other:?}"),
    }
    match build(status(), "working_copy_commit") {
        Built::CommitValue(CommitValue::CommitOpt(Some(commit))) => {
            assert_eq!(commit.id, vec![1, 2])
        }
        other => panic!("{other:?}"),
    }
    match build(status(), "parent_commits") {
        Built::CommitValue(CommitValue::CommitList(commits)) => {
            assert_eq!(commits.len(), 1);
            assert_eq!(commits[0].id, vec![3]);
        }
        other => panic!("{other:?}"),
    }
}

#[test]
fn test_status_entry_methods() {
    let renamed = || {
        Property::StatusEntry(StatusEntry::with_copy_source(
            repo_path("src/to"),
            FileStatus::Renamed,
            repo_path("lib/from"),
        ))
    };
    assert_eq!(text(build(renamed(), "status")), "R");
    assert_eq!(text(build(renamed(), "status_label")), "renamed");
    assert_eq!(text(build(renamed(), "copy_source")), "../lib/from");
    assert_eq!(text(build(property(build(renamed(), "path")), "display")), "to");

    let added =
        || Property::StatusEntry(StatusEntry::new(repo_path("src/to"), FileStatus::Added));
    assert_eq!(text(build(added(), "copy_source")), "");
}

#[test]
fn test_repo_path_methods() {
    let path = || Property::RepoPath(repo_path("doc/a.md"));
    assert_eq!(text(build(path(), "display")), "../doc/a.md");
    assert_eq!(text(build(path(), "absolute")), "/repo/doc/a.md");
}

#[test]
fn test_conflict_info_methods() {
    let conflict = || Property::ConflictInfo(ConflictInfo::new(repo_path("src/c"), 3));
    assert!(matches!(
        build(conflict(), "num_sides"),
        Built::CoreValue(CoreValue::Integer(3))
    ));
    assert_eq!(text(build(conflict(), "sides_description")), "3-sided conflict");
    assert_eq!(text(build(property(build(conflict(), "path")), "display")), "c");
}

#[test]
fn test_bookmark_conflict_methods() {
    let remote = || {
        Property::BookmarkConflict(BookmarkConflict::new_remote(
            "main".to_string(),
            "origin".to_string(),
        ))
    };
    assert_eq!(text(build(remote(), "name")), "main");
    assert_eq!(text(build(remote(), "remote")), "origin");
    assert_eq!(text(build(remote(), "full_name")), "main@origin");

    let local = || Property::BookmarkConflict(BookmarkConflict::new("main".to_string()));
    assert_eq!(text(build(local(), "remote")), "");
    assert_eq!(text(build(local(), "full_name")), "main");
}

#[test]
fn test_unknown_methods_are_refused() {
    for (property, typename) in [
        (Property::WorkingCopyStatus(WorkingCopyStatus::new()), "WorkingCopyStatus"),
        (
            Property::StatusEntry(StatusEntry::new(repo_path("a"), FileStatus::Added)),
            "StatusEntry",
        ),
        (Property::RepoPath(repo_path("a")), "RepoPath"),
        (Property::ConflictInfo(ConflictInfo::new(repo_path("a"), 2)), "ConflictInfo"),
        (Property::BookmarkConflict(BookmarkConflict::new("m".to_string())), "BookmarkConflict"),
        (Property::StatusEntryList(Vec::new()), "List<StatusEntry>"),
        (Property::RepoPathList(vec![repo_path("a")]), "List<RepoPath>"),
        (Property::ConflictInfoList(Vec::new()), "List<ConflictInfo>"),
        (Property::BookmarkConflictList(Vec::new()), "List<BookmarkConflict>"),
    ] {
        assert_eq!(
            error(property, &call_with("nothing", 2)),
            TemplateParseError::NoSuchMethod {
                typename: typename.to_string(),
                name: "nothing".to_string(),
            }
        );
    }
}

#[test]
fn test_arguments_are_refused() {
    assert_eq!(
        error(
            Property::RepoPath(repo_path("a")),
            &call_with("display", 1)
        ),
        TemplateParseError::InvalidArguments { name: "display".to_string() }
    );
}

#[test]
fn test_same_type_builds_the_same() {
    for name in ["has_conflicts", "conflicts", "parent_commits", "unknown"] {
        let a = language()
            .build_method(Property::WorkingCopyStatus(sample_status()), &call(name));
        let b = language()
            .build_method(Property::WorkingCopyStatus(WorkingCopyStatus::new()), &call(name));
        assert_eq!(a.is_ok(), b.is_ok());
    }
}

#[test]
fn test_methods_of_items_are_not_methods_of_lists() {
    assert_eq!(
        error(Property::RepoPathList(vec![repo_path("a")]), &call("display")),
        TemplateParseError::NoSuchMethod {
            typename: "List<RepoPath>".to_string(),
            name: "display".to_string(),
        }
    );
    assert_eq!(
        error(Property::RepoPath(repo_path("a")), &call("len")),
        TemplateParseError::NoSuchMethod {
            typename: "RepoPath".to_string(),
            name: "len".to_string(),
        }
    );
}

#[test]
fn test_commit_keywords() {
    for name in ["working_copy", "parents"] {
        assert_eq!(
            error(Property::WorkingCopyStatus(sample_status()), &call(name)),
            TemplateParseError::NoSuchMethod {
                typename: "WorkingCopyStatus".to_string(),
                name: name.to_string(),
            }
        );
    }
    match build(Property::WorkingCopyStatus(WorkingCopyStatus::new()), "working_copy_commit") {
        Built::CommitValue(CommitValue::CommitOpt(commit)) => assert!(commit.is_none()),
        other => panic!("{other:?}"),
    }
}

#[test]
fn test_lists_hand_on_their_methods() {
    let paths = Property::RepoPathList(vec![repo_path("a")]);
    match language().build_method(paths, &call_with("map", 1)).unwrap() {
        Built::ListMethod(ListMethod::Mapped, Property::RepoPathList(list)) => {
            assert_eq!(list, vec![repo_path("a")])
        }
        other => panic!("{other:?}"),
    }
    for property in [
        Property::StatusEntryList(Vec::new()),
        Property::RepoPathList(Vec::new()),
        Property::ConflictInfoList(Vec::new()),
        Property::BookmarkConflictList(Vec::new()),
    ] {
        let typename = property.typename().to_string();
        match build(property, "len") {
            Built::ListMethod(method, list) => {
                assert_eq!(method, ListMethod::Len);
                assert_eq!(list.typename(), typename);
            }
            other => panic!("{other:?}"),
        }
    }
}

#[test]
fn test_core_types_are_delegated() {
    match build(core_property(6), "len") {
        Built::CoreMethod(core) => assert_eq!(core.property, 6),
        other => panic!("{other:?}"),
    }
}

fn delegation(kind: CommitPropertyKind, typename: &str) -> CommitDelegation<u64> {
    match build(commit_property(kind, typename), "description") {
        Built::CommitMethod(delegation) => delegation,
        other => panic!("{other:?}"),
    }
}

#[test]
fn test_commit_types_are_delegated() {
    for (kind, typename, table, lookup_type) in [
        (CommitPropertyKind::Core, "String", CommitMethodTable::Core, None),
        (CommitPropertyKind::Operation, "Operation", CommitMethodTable::Operation, None),
        (CommitPropertyKind::Commit, "Commit", CommitMethodTable::Commit, Some("Commit")),
        (CommitPropertyKind::CommitOpt, "Option", CommitMethodTable::Commit, Some("Commit")),
        (CommitPropertyKind::CommitList, "List", CommitMethodTable::CommitList, Some("List")),
        (CommitPropertyKind::ChangeId, "ChangeId", CommitMethodTable::ChangeId, Some("ChangeId")),
        (CommitPropertyKind::CommitId, "CommitId", CommitMethodTable::CommitId, Some("CommitId")),
        (CommitPropertyKind::CommitRef, "Ref", CommitMethodTable::CommitRef, Some("Ref")),
        (CommitPropertyKind::CommitRefList, "Refs", CommitMethodTable::CommitRefList, Some("Refs")),
    ] {
        let delegation = delegation(kind, typename);
        assert_eq!(delegation.table, table);
        assert_eq!(delegation.lookup_type.as_deref(), lookup_type);
        assert_eq!(delegation.unwraps, kind == CommitPropertyKind::CommitOpt);
        assert_eq!(delegation.property.property, 77);
    }
}

#[test]
fn test_other_commit_types_have_no_methods() {
    assert_eq!(
        error(commit_property(CommitPropertyKind::Other, "TreeDiff"), &call("files")),
        TemplateParseError::Expression {
            message: "Method delegation not yet implemented for TreeDiff".to_string(),
            span: SPAN,
        }
    );
}

#[test]
fn test_commit_results_stay_commit_properties() {
    let built = CommitProperty {
        typename: "String".to_string(),
        kind: CommitPropertyKind::Core,
        property: 5,
    };
    match wrap_commit_result::<u32, u64>(Ok(built)) {
        Ok(Property::CommitTemplate(property)) => {
            assert_eq!(property.typename, "String");
            assert_eq!(property.property, 5);
        }
        other => panic!("{other:?}"),
    }
    let refused = TemplateParseError::InvalidArguments { name: "description".to_string() };
    assert_eq!(
        wrap_commit_result::<u32, u64>(Err(refused.clone())).unwrap_err(),
        refused
    );
}

#[test]
fn test_optional_commit_is_looked_up_as_commit() {
    let optional = delegation(CommitPropertyKind::CommitOpt, "Option<Commit>");
    let commit = delegation(CommitPropertyKind::Commit, "Commit");
    assert_eq!(optional.table, commit.table);
    assert_eq!(optional.lookup_type, commit.lookup_type);
    assert!(optional.unwraps);
    assert!(!commit.unwraps);
}

#[test]
fn test_method_table_keeps_the_last_of_a_name() {
    let mut table: MethodTable<u8> = MethodTable::new();
    assert_eq!(table.get(&"a".to_string()), None);
    table.insert("a", 1);
    table.insert("b", 2);
    table.insert("a", 3);
    assert_eq!(table.get(&"a".to_string()), Some(3));
    assert_eq!(table.get(&"b".to_string()), Some(2));
    assert_eq!(table.get(&"c".to_string()), None);
}

#[test]
fn test_string_or_default() {
    assert_eq!(string_or_default(Some("x".to_string())), "x");
    assert_eq!(string_or_default(None), "");
}
