//! The methods that the types of a status have in templates.

use crate::decimal::decimal;
use crate::method_table::value_for;
use crate::method_table::MethodTable;
use crate::property::CommitProperty;
use crate::property::CoreProperty;
use crate::property::StatusTemplatePropertyKind;
use crate::repo_path::fs_path;
use crate::repo_path::shown_path;
use crate::repo_path::RepoPathBuf;
use crate::repo_path::RepoPathUiConverter;
use crate::status_templater::BookmarkConflict;
use crate::status_templater::Commit;
use crate::status_templater::ConflictInfo;
use crate::status_templater::StatusEntry;
use crate::status_templater::WorkingCopyStatus;
use vstd::prelude::*;

verus! {

/// A value of a core type.
#[derive(Debug, PartialEq, Eq)]
pub enum CoreValue {
    String(String),
    Boolean(bool),
    Integer(i64),
}

/// A value of a type of the commit template language.
#[derive(Debug)]
pub enum CommitValue {
    CommitOpt(Option<Commit>),
    CommitList(Vec<Commit>),
}

/// The method tables of the commit template language.
#[derive(Clone, Copy, Debug, PartialEq, Eq, Structural)]
pub enum CommitMethodTable {
    Core,
    Operation,
    Commit,
    CommitList,
    ChangeId,
    CommitId,
    CommitRef,
    CommitRefList,
}

/// A method call that the commit template language is to build.
#[derive(Debug, PartialEq, Eq)]
pub struct CommitDelegation<M> {
    /// The table that has the method.
    pub table: CommitMethodTable,
    /// The name that the property's type goes by where the table lacks the method. The tables that
    /// build the call on their own do without.
    pub lookup_type: Option<String>,
    /// Whether the method is called on what is in the optional property.
    pub unwraps: bool,
    pub property: CommitProperty<M>,
}

/// What comes of a method call.
#[derive(Debug)]
pub enum Built<C, M, L> {
    /// A property of one of the types of a status.
    Property(StatusTemplatePropertyKind<C, M>),
    /// A value that the core language wraps.
    CoreValue(CoreValue),
    /// A value that the commit template language wraps.
    CommitValue(CommitValue),
    /// A call that the core language builds.
    CoreMethod(CoreProperty<C>),
    /// A call that the commit template language builds.
    CommitMethod(CommitDelegation<M>),
    /// A call of one of the methods that all lists have whose items have no form as text. The method
    /// itself sees to its arguments.
    ListMethod(L, StatusTemplatePropertyKind<C, M>),
}

/// The types of what the methods of a status give.
pub enum ValueType {
    String,
    Boolean,
    Integer,
    CommitOpt,
    CommitList,
    StatusEntryList,
    RepoPath,
    RepoPathList,
    ConflictInfoList,
    BookmarkConflictList,
}

impl<C, M, L> Built<C, M, L> {
    /// The type of the value, where it is one that a method of a status gives.
    pub open spec fn value_type(self) -> Option<ValueType> {
        match self {
            Built::CoreValue(CoreValue::String(_)) => Some(ValueType::String),
            Built::CoreValue(CoreValue::Boolean(_)) => Some(ValueType::Boolean),
            Built::CoreValue(CoreValue::Integer(_)) => Some(ValueType::Integer),
            Built::CommitValue(CommitValue::CommitOpt(_)) => Some(ValueType::CommitOpt),
            Built::CommitValue(CommitValue::CommitList(_)) => Some(ValueType::CommitList),
            Built::Property(property) => match property {
                StatusTemplatePropertyKind::StatusEntryList(_) => Some(ValueType::StatusEntryList),
                StatusTemplatePropertyKind::RepoPath(_) => Some(ValueType::RepoPath),
                StatusTemplatePropertyKind::RepoPathList(_) => Some(ValueType::RepoPathList),
                StatusTemplatePropertyKind::ConflictInfoList(_) => Some(
                    ValueType::ConflictInfoList,
                ),
                StatusTemplatePropertyKind::BookmarkConflictList(_) => Some(
                    ValueType::BookmarkConflictList,
                ),
                _ => None,
            },
            _ => None,
        }
    }

    /// Whether this is the boolean `value`.
    pub open spec fn is_boolean(self, value: bool) -> bool {
        self == Built::<C, M, L>::CoreValue(CoreValue::Boolean(value))
    }

    /// Whether this is a string that reads `text`.
    pub open spec fn is_string(self, text: Seq<char>) -> bool {
        self matches Built::CoreValue(CoreValue::String(string)) && string@ == text
    }
}

/// The methods of the status of a working copy.
#[derive(Clone, Copy, Debug, PartialEq, Eq, Structural)]
pub enum WorkingCopyStatusMethod {
    FileChanges,
    HasFileChanges,
    UntrackedPaths,
    HasUntrackedPaths,
    Conflicts,
    HasConflicts,
    LocalBookmarkConflicts,
    RemoteBookmarkConflicts,
    HasBookmarkConflicts,
    HasLocalBookmarkConflicts,
    HasRemoteBookmarkConflicts,
    WorkingCopyCommit,
    ParentCommits,
}

/// The methods of a file change.
#[derive(Clone, Copy, Debug, PartialEq, Eq, Structural)]
pub enum StatusEntryMethod {
    Path,
    Status,
    StatusLabel,
    CopySource,
}

/// The methods of a path.
#[derive(Clone, Copy, Debug, PartialEq, Eq, Structural)]
pub enum RepoPathMethod {
    Display,
    Absolute,
}

/// The methods of a conflict.
#[derive(Clone, Copy, Debug, PartialEq, Eq, Structural)]
pub enum ConflictInfoMethod {
    Path,
    NumSides,
    SidesDescription,
}

/// The methods of a conflicted bookmark.
#[derive(Clone, Copy, Debug, PartialEq, Eq, Structural)]
pub enum BookmarkConflictMethod {
    Name,
    Remote,
    FullName,
}

impl WorkingCopyStatusMethod {
    /// The name that the method is called by.
    pub open spec fn method_name(self) -> Seq<char> {
        match self {
            Self::FileChanges => "file_changes"@,
            Self::HasFileChanges => "has_file_changes"@,
            Self::UntrackedPaths => "untracked_paths"@,
            Self::HasUntrackedPaths => "has_untracked_paths"@,
            Self::Conflicts => "conflicts"@,
            Self::HasConflicts => "has_conflicts"@,
            Self::LocalBookmarkConflicts => "local_bookmark_conflicts"@,
            Self::RemoteBookmarkConflicts => "remote_bookmark_conflicts"@,
            Self::HasBookmarkConflicts => "has_bookmark_conflicts"@,
            Self::HasLocalBookmarkConflicts => "has_local_bookmark_conflicts"@,
            Self::HasRemoteBookmarkConflicts => "has_remote_bookmark_conflicts"@,
            Self::WorkingCopyCommit => "working_copy_commit"@,
            Self::ParentCommits => "parent_commits"@,
        }
    }

    /// The type of what the method gives.
    pub open spec fn value_type(self) -> ValueType {
        match self {
            Self::FileChanges => ValueType::StatusEntryList,
            Self::HasFileChanges => ValueType::Boolean,
            Self::UntrackedPaths => ValueType::RepoPathList,
            Self::HasUntrackedPaths => ValueType::Boolean,
            Self::Conflicts => ValueType::ConflictInfoList,
            Self::HasConflicts => ValueType::Boolean,
            Self::LocalBookmarkConflicts => ValueType::BookmarkConflictList,
            Self::RemoteBookmarkConflicts => ValueType::BookmarkConflictList,
            Self::HasBookmarkConflicts => ValueType::Boolean,
            Self::HasLocalBookmarkConflicts => ValueType::Boolean,
            Self::HasRemoteBookmarkConflicts => ValueType::Boolean,
            Self::WorkingCopyCommit => ValueType::CommitOpt,
            Self::ParentCommits => ValueType::CommitList,
        }
    }

    /// Whether the method gives `built` for `status`.
    pub open spec fn gives<C, M, L>(self, status: WorkingCopyStatus, built: Built<C, M, L>) -> bool {
        match self {
            Self::FileChanges => built == Built::<C, M, L>::Property(
                StatusTemplatePropertyKind::StatusEntryList(status.file_changes),
            ),
            Self::HasFileChanges => built.is_boolean(status.file_changes@.len() > 0),
            Self::UntrackedPaths => built == Built::<C, M, L>::Property(
                StatusTemplatePropertyKind::RepoPathList(status.untracked_paths),
            ),
            Self::HasUntrackedPaths => built.is_boolean(status.untracked_paths@.len() > 0),
            Self::Conflicts => built == Built::<C, M, L>::Property(
                StatusTemplatePropertyKind::ConflictInfoList(status.conflicts),
            ),
            Self::HasConflicts => built.is_boolean(status.conflicts@.len() > 0),
            Self::LocalBookmarkConflicts => built == Built::<C, M, L>::Property(
                StatusTemplatePropertyKind::BookmarkConflictList(status.local_bookmark_conflicts),
            ),
            Self::RemoteBookmarkConflicts => built == Built::<C, M, L>::Property(
                StatusTemplatePropertyKind::BookmarkConflictList(status.remote_bookmark_conflicts),
            ),
            Self::HasBookmarkConflicts => built.is_boolean(status.local_bookmark_conflicts@.len() > 0
                    || status.remote_bookmark_conflicts@.len() > 0,
            ),
            Self::HasLocalBookmarkConflicts => built.is_boolean(status.local_bookmark_conflicts@.len() > 0),
            Self::HasRemoteBookmarkConflicts => built.is_boolean(status.remote_bookmark_conflicts@.len() > 0),
            Self::WorkingCopyCommit => built == Built::<C, M, L>::CommitValue(
                CommitValue::CommitOpt(status.working_copy),
            ),
            Self::ParentCommits => built == Built::<C, M, L>::CommitValue(
                CommitValue::CommitList(status.parents),
            ),
        }
    }

    /// Calls the method on `status`.
    pub fn build<C, M, L>(self, status: WorkingCopyStatus) -> (built: Built<C, M, L>)
        ensures
            self.gives(status, built),
            built.value_type() == Some(self.value_type()),
    {
        match self {
            Self::FileChanges => Built::Property(
                StatusTemplatePropertyKind::StatusEntryList(status.file_changes),
            ),
            Self::HasFileChanges => Built::CoreValue(
                CoreValue::Boolean(status.has_file_changes()),
            ),
            Self::UntrackedPaths => Built::Property(
                StatusTemplatePropertyKind::RepoPathList(status.untracked_paths),
            ),
            Self::HasUntrackedPaths => Built::CoreValue(
                CoreValue::Boolean(status.has_untracked_paths()),
            ),
            Self::Conflicts => Built::Property(
                StatusTemplatePropertyKind::ConflictInfoList(status.conflicts),
            ),
            Self::HasConflicts => Built::CoreValue(
                CoreValue::Boolean(status.has_conflicts()),
            ),
            Self::LocalBookmarkConflicts => Built::Property(
                StatusTemplatePropertyKind::BookmarkConflictList(status.local_bookmark_conflicts),
            ),
            Self::RemoteBookmarkConflicts => Built::Property(
                StatusTemplatePropertyKind::BookmarkConflictList(status.remote_bookmark_conflicts),
            ),
            Self::HasBookmarkConflicts => Built::CoreValue(
                CoreValue::Boolean(status.has_bookmark_conflicts()),
            ),
            Self::HasLocalBookmarkConflicts => Built::CoreValue(
                CoreValue::Boolean(status.has_local_bookmark_conflicts()),
            ),
            Self::HasRemoteBookmarkConflicts => Built::CoreValue(
                CoreValue::Boolean(status.has_remote_bookmark_conflicts()),
            ),
            Self::WorkingCopyCommit => Built::CommitValue(CommitValue::CommitOpt(status.working_copy)),
            Self::ParentCommits => Built::CommitValue(CommitValue::CommitList(status.parents)),
        }
    }
}

/// The text, or the empty one where there is none.
pub open spec fn text_or_default(text: Option<Seq<char>>) -> Seq<char> {
    match text {
        Some(text) => text,
        None => Seq::empty(),
    }
}

/// The text, or the empty one where there is none.
pub fn string_or_default(text: Option<String>) -> (string: String)
    ensures
        string@ == text_or_default(
            match text {
                Some(text) => Some(text@),
                None => None,
            },
        ),
{
    match text {
        Some(text) => text,
        None => String::new(),
    }
}

impl StatusEntryMethod {
    /// The name that the method is called by.
    pub open spec fn method_name(self) -> Seq<char> {
        match self {
            Self::Path => "path"@,
            Self::Status => "status"@,
            Self::StatusLabel => "status_label"@,
            Self::CopySource => "copy_source"@,
        }
    }

    /// The type of what the method gives.
    pub open spec fn value_type(self) -> ValueType {
        match self {
            Self::Path => ValueType::RepoPath,
            Self::Status => ValueType::String,
            Self::StatusLabel => ValueType::String,
            Self::CopySource => ValueType::String,
        }
    }

    /// Whether the method gives `built` for `entry`, with paths shown by `converter`.
    pub open spec fn gives<C, M, L>(
        self,
        converter: RepoPathUiConverter,
        entry: StatusEntry,
        built: Built<C, M, L>,
    ) -> bool {
        match self {
            Self::Path => built == Built::<C, M, L>::Property(
                StatusTemplatePropertyKind::RepoPath(entry.path),
            ),
            Self::Status => built.is_string(seq![entry.status.letter()]),
            Self::StatusLabel => built.is_string(entry.status.label_text()),
            Self::CopySource => built.is_string(
                text_or_default(
                    match entry.copy_source {
                        Some(source) => Some(
                            shown_path(converter.cwd@, converter.base@, source.internal()),
                        ),
                        None => None,
                    },
                ),
            ),
        }
    }

    /// Calls the method on `entry`, with paths shown by `converter`.
    pub fn build<C, M, L>(self, converter: &RepoPathUiConverter, entry: StatusEntry) -> (built: Built<
        C,
        M,
        L,
    >)
        ensures
            self.gives(*converter, entry, built),
            built.value_type() == Some(self.value_type()),
    {
        match self {
            Self::Path => Built::Property(StatusTemplatePropertyKind::RepoPath(entry.path)),
            Self::Status => Built::CoreValue(CoreValue::String(entry.status.as_str().to_owned())),
            Self::StatusLabel => Built::CoreValue(
                CoreValue::String(entry.status.label().to_owned()),
            ),
            Self::CopySource => {
                let shown = match &entry.copy_source {
                    Some(source) => Some(converter.format_file_path(source)),
                    None => None,
                };
                Built::CoreValue(CoreValue::String(string_or_default(shown)))
            },
        }
    }
}

impl RepoPathMethod {
    /// The name that the method is called by.
    pub open spec fn method_name(self) -> Seq<char> {
        match self {
            Self::Display => "display"@,
            Self::Absolute => "absolute"@,
        }
    }

    /// The type of what the method gives.
    pub open spec fn value_type(self) -> ValueType {
        ValueType::String
    }

    /// Whether the method gives `built` for `path`, shown by `converter`.
    pub open spec fn gives<C, M, L>(
        self,
        converter: RepoPathUiConverter,
        path: RepoPathBuf,
        built: Built<C, M, L>,
    ) -> bool {
        match self {
            Self::Display => built.is_string(
                shown_path(converter.cwd@, converter.base@, path.internal()),
            ),
            Self::Absolute => built.is_string(fs_path(converter.base@, path.internal())),
        }
    }

    /// Calls the method on `path`, shown by `converter`.
    pub fn build<C, M, L>(self, converter: &RepoPathUiConverter, path: RepoPathBuf) -> (built: Built<
        C,
        M,
        L,
    >)
        ensures
            self.gives(*converter, path, built),
            built.value_type() == Some(self.value_type()),
    {
        match self {
            Self::Display => Built::CoreValue(CoreValue::String(converter.format_file_path(&path))),
            Self::Absolute => Built::CoreValue(CoreValue::String(converter.format_fs_path(&path))),
        }
    }
}

impl ConflictInfoMethod {
    /// The name that the method is called by.
    pub open spec fn method_name(self) -> Seq<char> {
        match self {
            Self::Path => "path"@,
            Self::NumSides => "num_sides"@,
            Self::SidesDescription => "sides_description"@,
        }
    }

    /// The type of what the method gives.
    pub open spec fn value_type(self) -> ValueType {
        match self {
            Self::Path => ValueType::RepoPath,
            Self::NumSides => ValueType::Integer,
            Self::SidesDescription => ValueType::String,
        }
    }

    /// Whether the method gives `built` for `conflict`.
    pub open spec fn gives<C, M, L>(self, conflict: ConflictInfo, built: Built<C, M, L>) -> bool {
        match self {
            Self::Path => built == Built::<C, M, L>::Property(
                StatusTemplatePropertyKind::RepoPath(conflict.path),
            ),
            Self::NumSides => built == Built::<C, M, L>::CoreValue(
                CoreValue::Integer(conflict.num_sides as i64),
            ),
            Self::SidesDescription => built.is_string(conflict.description()),
        }
    }

    /// Calls the method on `conflict`.
    pub fn build<C, M, L>(self, conflict: ConflictInfo) -> (built: Built<C, M, L>)
        ensures
            self.gives(conflict, built),
            built.value_type() == Some(self.value_type()),
    {
        match self {
            Self::Path => Built::Property(StatusTemplatePropertyKind::RepoPath(conflict.path)),
            Self::NumSides => Built::CoreValue(CoreValue::Integer(conflict.num_sides as i64)),
            Self::SidesDescription => Built::CoreValue(
                CoreValue::String(conflict.sides_description()),
            ),
        }
    }
}

impl BookmarkConflictMethod {
    /// The name that the method is called by.
    pub open spec fn method_name(self) -> Seq<char> {
        match self {
            Self::Name => "name"@,
            Self::Remote => "remote"@,
            Self::FullName => "full_name"@,
        }
    }

    /// The type of what the method gives.
    pub open spec fn value_type(self) -> ValueType {
        ValueType::String
    }

    /// Whether the method gives `built` for `bookmark`.
    pub open spec fn gives<C, M, L>(self, bookmark: BookmarkConflict, built: Built<C, M, L>) -> bool {
        match self {
            Self::Name => built.is_string(bookmark.name@),
            Self::Remote => built.is_string(
                text_or_default(
                    match bookmark.remote {
                        Some(remote) => Some(remote@),
                        None => None,
                    },
                ),
            ),
            Self::FullName => built.is_string(bookmark.full_text()),
        }
    }

    /// Calls the method on `bookmark`.
    pub fn build<C, M, L>(self, bookmark: BookmarkConflict) -> (built: Built<C, M, L>)
        ensures
            self.gives(bookmark, built),
            built.value_type() == Some(self.value_type()),
    {
        match self {
            Self::Name => Built::CoreValue(CoreValue::String(bookmark.name)),
            Self::Remote => Built::CoreValue(
                CoreValue::String(string_or_default(bookmark.remote)),
            ),
            Self::FullName => Built::CoreValue(CoreValue::String(bookmark.full_name())),
        }
    }
}

/// The methods of the status of a working copy, by their names.
pub open spec fn working_copy_status_methods() -> Map<Seq<char>, WorkingCopyStatusMethod> {
    map![
        "file_changes"@ => WorkingCopyStatusMethod::FileChanges,
        "has_file_changes"@ => WorkingCopyStatusMethod::HasFileChanges,
        "untracked_paths"@ => WorkingCopyStatusMethod::UntrackedPaths,
        "has_untracked_paths"@ => WorkingCopyStatusMethod::HasUntrackedPaths,
        "conflicts"@ => WorkingCopyStatusMethod::Conflicts,
        "has_conflicts"@ => WorkingCopyStatusMethod::HasConflicts,
        "local_bookmark_conflicts"@ => WorkingCopyStatusMethod::LocalBookmarkConflicts,
        "remote_bookmark_conflicts"@ => WorkingCopyStatusMethod::RemoteBookmarkConflicts,
        "has_bookmark_conflicts"@ => WorkingCopyStatusMethod::HasBookmarkConflicts,
        "has_local_bookmark_conflicts"@ => WorkingCopyStatusMethod::HasLocalBookmarkConflicts,
        "has_remote_bookmark_conflicts"@ => WorkingCopyStatusMethod::HasRemoteBookmarkConflicts,
        "working_copy_commit"@ => WorkingCopyStatusMethod::WorkingCopyCommit,
        "parent_commits"@ => WorkingCopyStatusMethod::ParentCommits,
    ]
}

/// The table of the methods of the status of a working copy.
pub fn builtin_working_copy_status_methods() -> (table: MethodTable<WorkingCopyStatusMethod>)
    ensures
        table@ == working_copy_status_methods(),
{
    let mut table: MethodTable<WorkingCopyStatusMethod> = MethodTable::new();
    table.insert("file_changes", WorkingCopyStatusMethod::FileChanges);
    table.insert("has_file_changes", WorkingCopyStatusMethod::HasFileChanges);
    table.insert("untracked_paths", WorkingCopyStatusMethod::UntrackedPaths);
    table.insert("has_untracked_paths", WorkingCopyStatusMethod::HasUntrackedPaths);
    table.insert("conflicts", WorkingCopyStatusMethod::Conflicts);
    table.insert("has_conflicts", WorkingCopyStatusMethod::HasConflicts);
    table.insert("local_bookmark_conflicts", WorkingCopyStatusMethod::LocalBookmarkConflicts);
    table.insert("remote_bookmark_conflicts", WorkingCopyStatusMethod::RemoteBookmarkConflicts);
    table.insert("has_bookmark_conflicts", WorkingCopyStatusMethod::HasBookmarkConflicts);
    table.insert("has_local_bookmark_conflicts", WorkingCopyStatusMethod::HasLocalBookmarkConflicts);
    table.insert("has_remote_bookmark_conflicts", WorkingCopyStatusMethod::HasRemoteBookmarkConflicts);
    table.insert("working_copy_commit", WorkingCopyStatusMethod::WorkingCopyCommit);
    table.insert("parent_commits", WorkingCopyStatusMethod::ParentCommits);
    table
}

/// The methods of a file change, by their names.
pub open spec fn status_entry_methods() -> Map<Seq<char>, StatusEntryMethod> {
    map![
        "path"@ => StatusEntryMethod::Path,
        "status"@ => StatusEntryMethod::Status,
        "status_label"@ => StatusEntryMethod::StatusLabel,
        "copy_source"@ => StatusEntryMethod::CopySource,
    ]
}

/// The table of the methods of a file change.
pub fn builtin_status_entry_methods() -> (table: MethodTable<StatusEntryMethod>)
    ensures
        table@ == status_entry_methods(),
{
    let mut table: MethodTable<StatusEntryMethod> = MethodTable::new();
    table.insert("path", StatusEntryMethod::Path);
    table.insert("status", StatusEntryMethod::Status);
    table.insert("status_label", StatusEntryMethod::StatusLabel);
    table.insert("copy_source", StatusEntryMethod::CopySource);
    table
}

/// The methods of a path, by their names.
pub open spec fn repo_path_methods() -> Map<Seq<char>, RepoPathMethod> {
    map![
        "display"@ => RepoPathMethod::Display,
        "absolute"@ => RepoPathMethod::Absolute,
    ]
}

/// The table of the methods of a path.
pub fn builtin_repo_path_methods() -> (table: MethodTable<RepoPathMethod>)
    ensures
        table@ == repo_path_methods(),
{
    let mut table: MethodTable<RepoPathMethod> = MethodTable::new();
    table.insert("display", RepoPathMethod::Display);
    table.insert("absolute", RepoPathMethod::Absolute);
    table
}

/// The methods of a conflict, by their names.
pub open spec fn conflict_info_methods() -> Map<Seq<char>, ConflictInfoMethod> {
    map![
        "path"@ => ConflictInfoMethod::Path,
        "num_sides"@ => ConflictInfoMethod::NumSides,
        "sides_description"@ => ConflictInfoMethod::SidesDescription,
    ]
}

/// The table of the methods of a conflict.
pub fn builtin_conflict_info_methods() -> (table: MethodTable<ConflictInfoMethod>)
    ensures
        table@ == conflict_info_methods(),
{
    let mut table: MethodTable<ConflictInfoMethod> = MethodTable::new();
    table.insert("path", ConflictInfoMethod::Path);
    table.insert("num_sides", ConflictInfoMethod::NumSides);
    table.insert("sides_description", ConflictInfoMethod::SidesDescription);
    table
}

/// The methods of a conflicted bookmark, by their names.
pub open spec fn bookmark_conflict_methods() -> Map<Seq<char>, BookmarkConflictMethod> {
    map![
        "name"@ => BookmarkConflictMethod::Name,
        "remote"@ => BookmarkConflictMethod::Remote,
        "full_name"@ => BookmarkConflictMethod::FullName,
    ]
}

/// The table of the methods of a conflicted bookmark.
pub fn builtin_bookmark_conflict_methods() -> (table: MethodTable<BookmarkConflictMethod>)
    ensures
        table@ == bookmark_conflict_methods(),
{
    let mut table: MethodTable<BookmarkConflictMethod> = MethodTable::new();
    table.insert("name", BookmarkConflictMethod::Name);
    table.insert("remote", BookmarkConflictMethod::Remote);
    table.insert("full_name", BookmarkConflictMethod::FullName);
    table
}

/// Each method is found by its name, and by no other.
pub proof fn law_working_copy_status_methods_found(method: WorkingCopyStatusMethod)
    ensures
        value_for(working_copy_status_methods(), method.method_name()) == Some(method),
        forall|name: Seq<char>|
            #[trigger] value_for(working_copy_status_methods(), name) == Some(method) ==> name
                == method.method_name(),
{
    reveal_strlit("file_changes");
    reveal_strlit("has_file_changes");
    reveal_strlit("untracked_paths");
    reveal_strlit("has_untracked_paths");
    reveal_strlit("conflicts");
    reveal_strlit("has_conflicts");
    reveal_strlit("local_bookmark_conflicts");
    reveal_strlit("remote_bookmark_conflicts");
    reveal_strlit("has_bookmark_conflicts");
    reveal_strlit("has_local_bookmark_conflicts");
    reveal_strlit("has_remote_bookmark_conflicts");
    reveal_strlit("working_copy_commit");
    reveal_strlit("parent_commits");
    assert("file_changes"@.len() == 12);
    assert("has_file_changes"@.len() == 16);
    assert("untracked_paths"@.len() == 15);
    assert("has_untracked_paths"@.len() == 19 && "has_untracked_paths"@[0] == 'h');
    assert("conflicts"@.len() == 9);
    assert("has_conflicts"@.len() == 13);
    assert("local_bookmark_conflicts"@.len() == 24);
    assert("remote_bookmark_conflicts"@.len() == 25);
    assert("has_bookmark_conflicts"@.len() == 22);
    assert("has_local_bookmark_conflicts"@.len() == 28);
    assert("has_remote_bookmark_conflicts"@.len() == 29);
    assert("working_copy_commit"@.len() == 19 && "working_copy_commit"@[0] == 'w');
    assert("parent_commits"@.len() == 14);
}

/// Each method is found by its name, and by no other.
pub proof fn law_status_entry_methods_found(method: StatusEntryMethod)
    ensures
        value_for(status_entry_methods(), method.method_name()) == Some(method),
        forall|name: Seq<char>|
            #[trigger] value_for(status_entry_methods(), name) == Some(method) ==> name
                == method.method_name(),
{
    reveal_strlit("path");
    reveal_strlit("status");
    reveal_strlit("status_label");
    reveal_strlit("copy_source");
    assert("path"@.len() == 4);
    assert("status"@.len() == 6);
    assert("status_label"@.len() == 12);
    assert("copy_source"@.len() == 11);
}

/// Each method is found by its name, and by no other.
pub proof fn law_repo_path_methods_found(method: RepoPathMethod)
    ensures
        value_for(repo_path_methods(), method.method_name()) == Some(method),
        forall|name: Seq<char>|
            #[trigger] value_for(repo_path_methods(), name) == Some(method) ==> name
                == method.method_name(),
{
    reveal_strlit("display");
    reveal_strlit("absolute");
    assert("display"@.len() == 7);
    assert("absolute"@.len() == 8);
}

/// Each method is found by its name, and by no other.
pub proof fn law_conflict_info_methods_found(method: ConflictInfoMethod)
    ensures
        value_for(conflict_info_methods(), method.method_name()) == Some(method),
        forall|name: Seq<char>|
            #[trigger] value_for(conflict_info_methods(), name) == Some(method) ==> name
                == method.method_name(),
{
    reveal_strlit("path");
    reveal_strlit("num_sides");
    reveal_strlit("sides_description");
    assert("path"@.len() == 4);
    assert("num_sides"@.len() == 9);
    assert("sides_description"@.len() == 17);
}

/// Each method is found by its name, and by no other.
pub proof fn law_bookmark_conflict_methods_found(method: BookmarkConflictMethod)
    ensures
        value_for(bookmark_conflict_methods(), method.method_name()) == Some(method),
        forall|name: Seq<char>|
            #[trigger] value_for(bookmark_conflict_methods(), name) == Some(method) ==> name
                == method.method_name(),
{
    reveal_strlit("name");
    reveal_strlit("remote");
    reveal_strlit("full_name");
    assert("name"@.len() == 4);
    assert("remote"@.len() == 6);
    assert("full_name"@.len() == 9);
}

/// A flag of the status is set exactly if the list that it is about has something in it.
pub proof fn law_flags_tell_lists<C, M, L>(
    status: WorkingCopyStatus,
    changes: Vec<StatusEntry>,
    paths: Vec<RepoPathBuf>,
    conflicts: Vec<ConflictInfo>,
    flag: bool,
)
    requires
        WorkingCopyStatusMethod::FileChanges.gives(
            status,
            Built::<C, M, L>::Property(StatusTemplatePropertyKind::StatusEntryList(changes)),
        ),
        WorkingCopyStatusMethod::UntrackedPaths.gives(
            status,
            Built::<C, M, L>::Property(StatusTemplatePropertyKind::RepoPathList(paths)),
        ),
        WorkingCopyStatusMethod::Conflicts.gives(
            status,
            Built::<C, M, L>::Property(StatusTemplatePropertyKind::ConflictInfoList(conflicts)),
        ),
    ensures
        ({
            let built = Built::<C, M, L>::CoreValue(CoreValue::Boolean(flag));
            &&& WorkingCopyStatusMethod::HasFileChanges.gives(status, built) <==> flag == (
            changes@.len() > 0)
            &&& WorkingCopyStatusMethod::HasUntrackedPaths.gives(status, built) <==> flag == (
            paths@.len() > 0)
            &&& WorkingCopyStatusMethod::HasConflicts.gives(status, built) <==> flag == (
            conflicts@.len() > 0)
        }),
{
}

/// The flags for conflicted bookmarks are set exactly if the lists have something in them: the local
/// ones, those of remotes, or either.
pub proof fn law_bookmark_flags_tell_lists<C, M, L>(
    status: WorkingCopyStatus,
    local: Vec<BookmarkConflict>,
    remote: Vec<BookmarkConflict>,
    flag: bool,
)
    requires
        WorkingCopyStatusMethod::LocalBookmarkConflicts.gives(
            status,
            Built::<C, M, L>::Property(StatusTemplatePropertyKind::BookmarkConflictList(local)),
        ),
        WorkingCopyStatusMethod::RemoteBookmarkConflicts.gives(
            status,
            Built::<C, M, L>::Property(StatusTemplatePropertyKind::BookmarkConflictList(remote)),
        ),
    ensures
        ({
            let built = Built::<C, M, L>::CoreValue(CoreValue::Boolean(flag));
            &&& WorkingCopyStatusMethod::HasLocalBookmarkConflicts.gives(status, built) <==> flag
                == (local@.len() > 0)
            &&& WorkingCopyStatusMethod::HasRemoteBookmarkConflicts.gives(status, built) <==> flag
                == (remote@.len() > 0)
            &&& WorkingCopyStatusMethod::HasBookmarkConflicts.gives(status, built) <==> flag == (
            local@.len() > 0 || remote@.len() > 0)
        }),
{
}

/// The text that stands for a missing one is empty, and any other stands for itself.
pub proof fn law_missing_text_is_empty(text: Option<Seq<char>>)
    ensures
        text is None ==> text_or_default(text).len() == 0,
        text matches Some(text_inside) ==> text_or_default(text) == text_inside,
{
}

/// What the methods of a status give are its lists and its commits as they are, and flags that tell
/// which of the lists have something in them.
pub proof fn law_status_methods_read_the_status<C, M, L>(
    method: WorkingCopyStatusMethod,
    status: WorkingCopyStatus,
    built: Built<C, M, L>,
)
    requires
        method.gives(status, built),
    ensures
        match method {
            WorkingCopyStatusMethod::FileChanges => built matches Built::Property(
                StatusTemplatePropertyKind::StatusEntryList(list),
            ) && list == status.file_changes,
            WorkingCopyStatusMethod::UntrackedPaths => built matches Built::Property(
                StatusTemplatePropertyKind::RepoPathList(list),
            ) && list == status.untracked_paths,
            WorkingCopyStatusMethod::Conflicts => built matches Built::Property(
                StatusTemplatePropertyKind::ConflictInfoList(list),
            ) && list == status.conflicts,
            WorkingCopyStatusMethod::LocalBookmarkConflicts => built matches Built::Property(
                StatusTemplatePropertyKind::BookmarkConflictList(list),
            ) && list == status.local_bookmark_conflicts,
            WorkingCopyStatusMethod::RemoteBookmarkConflicts => built matches Built::Property(
                StatusTemplatePropertyKind::BookmarkConflictList(list),
            ) && list == status.remote_bookmark_conflicts,
            WorkingCopyStatusMethod::WorkingCopyCommit => built matches Built::CommitValue(
                CommitValue::CommitOpt(commit),
            ) && commit == status.working_copy,
            WorkingCopyStatusMethod::ParentCommits => built matches Built::CommitValue(
                CommitValue::CommitList(commits),
            ) && commits == status.parents,
            WorkingCopyStatusMethod::HasFileChanges => built matches Built::CoreValue(
                CoreValue::Boolean(flag),
            ) && (flag <==> status.file_changes@.len() > 0),
            WorkingCopyStatusMethod::HasUntrackedPaths => built matches Built::CoreValue(
                CoreValue::Boolean(flag),
            ) && (flag <==> status.untracked_paths@.len() > 0),
            WorkingCopyStatusMethod::HasConflicts => built matches Built::CoreValue(
                CoreValue::Boolean(flag),
            ) && (flag <==> status.conflicts@.len() > 0),
            WorkingCopyStatusMethod::HasLocalBookmarkConflicts => built matches Built::CoreValue(
                CoreValue::Boolean(flag),
            ) && (flag <==> status.local_bookmark_conflicts@.len() > 0),
            WorkingCopyStatusMethod::HasRemoteBookmarkConflicts => built matches Built::CoreValue(
                CoreValue::Boolean(flag),
            ) && (flag <==> status.remote_bookmark_conflicts@.len() > 0),
            WorkingCopyStatusMethod::HasBookmarkConflicts => built matches Built::CoreValue(
                CoreValue::Boolean(flag),
            ) && (flag <==> status.local_bookmark_conflicts@.len()
                + status.remote_bookmark_conflicts@.len() > 0),
        },
{
}

/// The methods of a file change give its path as it is, its letter and its label by its status alone,
/// and its copy source by that alone.
pub proof fn law_entry_methods_read_the_entry<C, M, L>(
    method: StatusEntryMethod,
    converter: RepoPathUiConverter,
    entry: StatusEntry,
    built: Built<C, M, L>,
)
    requires
        method.gives(converter, entry, built),
    ensures
        match method {
            StatusEntryMethod::Path => built matches Built::Property(
                StatusTemplatePropertyKind::RepoPath(path),
            ) && path == entry.path,
            StatusEntryMethod::Status => built matches Built::CoreValue(CoreValue::String(text))
                && text@.len() == 1 && text@[0] == entry.status.letter(),
            StatusEntryMethod::StatusLabel => built matches Built::CoreValue(
                CoreValue::String(text),
            ) && text@ == entry.status.label_text(),
            StatusEntryMethod::CopySource => built matches Built::CoreValue(CoreValue::String(text))
                && match entry.copy_source {
                Some(source) => text@ == shown_path(
                    converter.cwd@,
                    converter.base@,
                    source.internal(),
                ),
                None => text@.len() == 0,
            },
        },
{
}

/// The copy source of a file change reads as the source path itself is displayed, whatever the status
/// is: file changes with the same source read the same.
pub proof fn law_copy_source_reads_as_displayed<C, M, L>(
    converter: RepoPathUiConverter,
    a: StatusEntry,
    b: StatusEntry,
    source: RepoPathBuf,
    built_a: Built<C, M, L>,
    built_b: Built<C, M, L>,
    displayed: Built<C, M, L>,
)
    requires
        a.copy_source == Some(source),
        b.copy_source == Some(source),
        StatusEntryMethod::CopySource.gives(converter, a, built_a),
        StatusEntryMethod::CopySource.gives(converter, b, built_b),
        RepoPathMethod::Display.gives(converter, source, displayed),
    ensures
        built_a matches Built::CoreValue(CoreValue::String(text_a))
            && built_b matches Built::CoreValue(CoreValue::String(text_b))
            && displayed matches Built::CoreValue(CoreValue::String(text)) && text_a@ == text@
            && text_b@ == text@,
{
}

/// The methods of a path give it as the user sees it, by where the user is and where the repository
/// is, and its place in the file system, by where the repository is alone.
pub proof fn law_path_methods_read_the_path<C, M, L>(
    method: RepoPathMethod,
    converter: RepoPathUiConverter,
    path: RepoPathBuf,
    built: Built<C, M, L>,
)
    requires
        method.gives(converter, path, built),
    ensures
        built matches Built::CoreValue(CoreValue::String(text)) && match method {
            RepoPathMethod::Display => text@ == shown_path(
                converter.cwd@,
                converter.base@,
                path.internal(),
            ),
            RepoPathMethod::Absolute => text@ == fs_path(converter.base@, path.internal()),
        },
{
}

/// The methods of a conflict give its path as it is, the number of its sides, and the description
/// that begins with that number.
pub proof fn law_conflict_methods_read_the_conflict<C, M, L>(
    method: ConflictInfoMethod,
    conflict: ConflictInfo,
    built: Built<C, M, L>,
)
    requires
        method.gives(conflict, built),
    ensures
        match method {
            ConflictInfoMethod::Path => built matches Built::Property(
                StatusTemplatePropertyKind::RepoPath(path),
            ) && path == conflict.path,
            ConflictInfoMethod::NumSides => built matches Built::CoreValue(CoreValue::Integer(n))
                && n == conflict.num_sides as i64,
            ConflictInfoMethod::SidesDescription => built matches Built::CoreValue(
                CoreValue::String(text),
            ) && text@ == decimal(conflict.num_sides as nat) + "-sided conflict"@,
        },
{
}

/// The methods of a conflicted bookmark give its name, its remote or nothing, and the full name, which
/// is the other two with `@` between them where there is a remote.
pub proof fn law_bookmark_methods_read_the_bookmark<C, M, L>(
    method: BookmarkConflictMethod,
    bookmark: BookmarkConflict,
    built: Built<C, M, L>,
)
    requires
        method.gives(bookmark, built),
    ensures
        built matches Built::CoreValue(CoreValue::String(text)) && match method {
            BookmarkConflictMethod::Name => text@ == bookmark.name@,
            BookmarkConflictMethod::Remote => match bookmark.remote {
                Some(remote) => text@ == remote@,
                None => text@.len() == 0,
            },
            BookmarkConflictMethod::FullName => match bookmark.remote {
                Some(remote) => text@ == bookmark.name@ + seq!['@'] + remote@,
                None => text@ == bookmark.name@,
            },
        },
{
    if let Some(remote) = bookmark.remote {
        assert(bookmark.full_text() =~= bookmark.name@ + seq!['@'] + remote@);
    }
}

} // verus!
