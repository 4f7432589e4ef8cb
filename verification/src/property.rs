//! The properties that a status template works on.
//!
//! A property is a value with a type of the template language. Those of the core language and of
//! the commit template language are looked into by these languages alone: what stands for them
//! here is the name of the type, what kind of property it is, and the property itself.

use crate::repo_path::RepoPathBuf;
use crate::status_templater::BookmarkConflict;
use crate::status_templater::ConflictInfo;
use crate::status_templater::StatusEntry;
use crate::status_templater::WorkingCopyStatus;
use vstd::prelude::*;

verus! {

/// A property of a core type, such as a string, an integer or a boolean.
#[derive(Debug, PartialEq, Eq)]
pub struct CoreProperty<C> {
    pub typename: String,
    pub property: C,
}

/// The kinds of properties of the commit template language that have methods in a status template.
#[derive(Clone, Copy, Debug, PartialEq, Eq, Structural)]
pub enum CommitPropertyKind {
    Core,
    Operation,
    Commit,
    CommitOpt,
    CommitList,
    ChangeId,
    CommitId,
    CommitRef,
    CommitRefList,
    /// Any other kind.
    Other,
}

/// A property of a type of the commit template language.
#[derive(Debug, PartialEq, Eq)]
pub struct CommitProperty<M> {
    pub typename: String,
    pub kind: CommitPropertyKind,
    pub property: M,
}

/// Property types for status templates
#[derive(Debug)]
pub enum StatusTemplatePropertyKind<C, M> {
    /// Core template types (String, Integer, Boolean, etc.)
    Core(CoreProperty<C>),
    /// Commit template types (allows full commit template functionality)
    CommitTemplate(CommitProperty<M>),
    /// Working copy status (the "self" in status templates)
    WorkingCopyStatus(WorkingCopyStatus),
    /// File change in working copy
    StatusEntry(StatusEntry),
    /// List of file changes
    StatusEntryList(Vec<StatusEntry>),
    /// Repository path
    RepoPath(RepoPathBuf),
    /// List of repository paths
    RepoPathList(Vec<RepoPathBuf>),
    /// Conflict information
    ConflictInfo(ConflictInfo),
    /// List of conflicts
    ConflictInfoList(Vec<ConflictInfo>),
    /// Bookmark conflict
    BookmarkConflict(BookmarkConflict),
    /// List of bookmark conflicts
    BookmarkConflictList(Vec<BookmarkConflict>),
}

/// A property that another template language answers for.
#[derive(Debug, PartialEq, Eq)]
pub enum Delegate<C, M> {
    Core(CoreProperty<C>),
    CommitTemplate(CommitProperty<M>),
}

impl<C, M> StatusTemplatePropertyKind<C, M> {
    /// The name of the property's type.
    pub open spec fn type_text(self) -> Seq<char> {
        match self {
            Self::Core(property) => property.typename@,
            Self::CommitTemplate(property) => property.typename@,
            Self::WorkingCopyStatus(_) => "WorkingCopyStatus"@,
            Self::StatusEntry(_) => "StatusEntry"@,
            Self::StatusEntryList(_) => "List<StatusEntry>"@,
            Self::RepoPath(_) => "RepoPath"@,
            Self::RepoPathList(_) => "List<RepoPath>"@,
            Self::ConflictInfo(_) => "ConflictInfo"@,
            Self::ConflictInfoList(_) => "List<ConflictInfo>"@,
            Self::BookmarkConflict(_) => "BookmarkConflict"@,
            Self::BookmarkConflictList(_) => "List<BookmarkConflict>"@,
        }
    }

    /// The language that answers for the property, where it is none of the types of a status.
    pub open spec fn delegate(self) -> Option<Delegate<C, M>> {
        match self {
            Self::Core(property) => Some(Delegate::Core(property)),
            Self::CommitTemplate(property) => Some(Delegate::CommitTemplate(property)),
            _ => None,
        }
    }

    /// Whether this is a list of one of the types of a status.
    pub open spec fn is_status_list(self) -> bool {
        self is StatusEntryList || self is RepoPathList || self is ConflictInfoList
            || self is BookmarkConflictList
    }

    pub fn typename(&self) -> (name: &str)
        ensures
            name@ == self.type_text(),
    {
        match self {
            Self::Core(property) => property.typename.as_str(),
            Self::CommitTemplate(property) => property.typename.as_str(),
            Self::WorkingCopyStatus(_) => "WorkingCopyStatus",
            Self::StatusEntry(_) => "StatusEntry",
            Self::StatusEntryList(_) => "List<StatusEntry>",
            Self::RepoPath(_) => "RepoPath",
            Self::RepoPathList(_) => "List<RepoPath>",
            Self::ConflictInfo(_) => "ConflictInfo",
            Self::ConflictInfoList(_) => "List<ConflictInfo>",
            Self::BookmarkConflict(_) => "BookmarkConflict",
            Self::BookmarkConflictList(_) => "List<BookmarkConflict>",
        }
    }

    /// Hands the property to the language that knows its type, if that is another one. The types of
    /// a status convert to nothing.
    fn into_delegate(self) -> (delegate: Option<Delegate<C, M>>)
        ensures
            delegate == self.delegate(),
    {
        match self {
            Self::Core(property) => Some(Delegate::Core(property)),
            Self::CommitTemplate(property) => Some(Delegate::CommitTemplate(property)),
            Self::WorkingCopyStatus(_)
            | Self::StatusEntry(_)
            | Self::StatusEntryList(_)
            | Self::RepoPath(_)
            | Self::RepoPathList(_)
            | Self::ConflictInfo(_)
            | Self::ConflictInfoList(_)
            | Self::BookmarkConflict(_)
            | Self::BookmarkConflictList(_) => None,
        }
    }

    /// Whose conversion to a boolean is the property's, if it has one.
    pub fn try_into_boolean(self) -> (delegate: Option<Delegate<C, M>>)
        ensures
            delegate == self.delegate(),
    {
        self.into_delegate()
    }

    /// Whose conversion to an integer is the property's, if it has one.
    pub fn try_into_integer(self) -> (delegate: Option<Delegate<C, M>>)
        ensures
            delegate == self.delegate(),
    {
        self.into_delegate()
    }

    /// Whose conversion to a string is the property's, if it has one.
    pub fn try_into_stringify(self) -> (delegate: Option<Delegate<C, M>>)
        ensures
            delegate == self.delegate(),
    {
        self.into_delegate()
    }

    /// Whose serialized form is the property's, if it has one.
    pub fn try_into_serialize(self) -> (delegate: Option<Delegate<C, M>>)
        ensures
            delegate == self.delegate(),
    {
        self.into_delegate()
    }

    /// Whose conversion to a template is the property's, if it has one.
    pub fn try_into_template(self) -> (delegate: Option<Delegate<C, M>>)
        ensures
            delegate == self.delegate(),
    {
        self.into_delegate()
    }

    /// The two properties that the core language is to compare for equality, if these can be
    /// compared. Status-specific types don't support equality comparison.
    pub fn try_into_eq(self, other: Self) -> (operands: Option<(CoreProperty<C>, CoreProperty<C>)>)
        ensures
            operands == self.core_operands(other),
    {
        match (self, other) {
            (Self::Core(lhs), Self::Core(rhs)) => Some((lhs, rhs)),
            _ => None,
        }
    }

    /// The two properties that the core language is to order, if these can be ordered.
    /// Status-specific types don't support ordering comparison.
    pub fn try_into_cmp(self, other: Self) -> (operands: Option<(CoreProperty<C>, CoreProperty<C>)>)
        ensures
            operands == self.core_operands(other),
    {
        match (self, other) {
            (Self::Core(lhs), Self::Core(rhs)) => Some((lhs, rhs)),
            _ => None,
        }
    }

    /// Both properties, if they are of core types.
    pub open spec fn core_operands(self, other: Self) -> Option<
        (CoreProperty<C>, CoreProperty<C>),
    > {
        match (self, other) {
            (Self::Core(lhs), Self::Core(rhs)) => Some((lhs, rhs)),
            _ => None,
        }
    }
}

/// Two properties can be compared only where each converts by the core language.
pub proof fn law_comparison_is_core<C, M>(
    a: StatusTemplatePropertyKind<C, M>,
    b: StatusTemplatePropertyKind<C, M>,
)
    ensures
        a.core_operands(b) matches Some((lhs, rhs)) ==> {
            &&& a.delegate() == Some(Delegate::<C, M>::Core(lhs))
            &&& b.delegate() == Some(Delegate::<C, M>::Core(rhs))
        },
        a.core_operands(b) is Some <==> b.core_operands(a) is Some,
        (a.core_operands(b) is Some) == (a is Core && b is Core),
{
}

/// The name of a property's type tells the types of a status apart.
pub proof fn law_type_texts_differ<C, M>(
    a: StatusTemplatePropertyKind<C, M>,
    b: StatusTemplatePropertyKind<C, M>,
)
    requires
        a.delegate() is None,
        b.delegate() is None,
        a.type_text() == b.type_text(),
    ensures
        a is WorkingCopyStatus == b is WorkingCopyStatus,
        a is StatusEntry == b is StatusEntry,
        a is StatusEntryList == b is StatusEntryList,
        a is RepoPath == b is RepoPath,
        a is RepoPathList == b is RepoPathList,
        a is ConflictInfo == b is ConflictInfo,
        a is ConflictInfoList == b is ConflictInfoList,
        a is BookmarkConflict == b is BookmarkConflict,
        a is BookmarkConflictList == b is BookmarkConflictList,
{
    reveal_strlit("WorkingCopyStatus");
    reveal_strlit("StatusEntry");
    reveal_strlit("List<StatusEntry>");
    reveal_strlit("RepoPath");
    reveal_strlit("List<RepoPath>");
    reveal_strlit("ConflictInfo");
    reveal_strlit("List<ConflictInfo>");
    reveal_strlit("BookmarkConflict");
    reveal_strlit("List<BookmarkConflict>");
    assert("WorkingCopyStatus"@.len() == 17 && "WorkingCopyStatus"@[0] == 'W');
    assert("StatusEntry"@.len() == 11);
    assert("List<StatusEntry>"@.len() == 17 && "List<StatusEntry>"@[0] == 'L');
    assert("RepoPath"@.len() == 8);
    assert("List<RepoPath>"@.len() == 14);
    assert("ConflictInfo"@.len() == 12);
    assert("List<ConflictInfo>"@.len() == 18);
    assert("BookmarkConflict"@.len() == 16);
    assert("List<BookmarkConflict>"@.len() == 22);
}

/// A property is handed to the core language or to the commit template language exactly if it is one
/// of theirs, whole and whatever is in it.
pub proof fn law_properties_are_handed_on<C, M>(property: StatusTemplatePropertyKind<C, M>)
    ensures
        property matches StatusTemplatePropertyKind::Core(core) ==> property.delegate() matches Some(
            Delegate::Core(given),
        ) && given == core && property.type_text() == core.typename@,
        property matches StatusTemplatePropertyKind::CommitTemplate(commit)
            ==> property.delegate() matches Some(Delegate::CommitTemplate(given)) && given == commit
            && property.type_text() == commit.typename@,
        !(property is Core) && !(property is CommitTemplate) ==> property.delegate() is None,
        property.is_status_list() <==> property is StatusEntryList || property is RepoPathList
            || property is ConflictInfoList || property is BookmarkConflictList,
{
}

/// Two properties are compared as they are, in their order, exactly if both are of core types.
pub proof fn law_core_properties_are_compared<C, M>(
    a: StatusTemplatePropertyKind<C, M>,
    b: StatusTemplatePropertyKind<C, M>,
)
    ensures
        a.core_operands(b) is Some <==> a is Core && b is Core,
        a.core_operands(b) matches Some((lhs, rhs)) ==> a == StatusTemplatePropertyKind::<C, M>::Core(
            lhs,
        ) && b == StatusTemplatePropertyKind::<C, M>::Core(rhs),
{
}

/// The name of a list's type is that of its items' type, marked as a list.
pub proof fn law_list_type_texts<C, M>(
    entry: StatusEntry,
    entries: Vec<StatusEntry>,
    path: RepoPathBuf,
    paths: Vec<RepoPathBuf>,
    conflict: ConflictInfo,
    conflicts: Vec<ConflictInfo>,
    bookmark: BookmarkConflict,
    bookmarks: Vec<BookmarkConflict>,
)
    ensures
        StatusTemplatePropertyKind::<C, M>::StatusEntryList(entries).type_text() == "List<"@
            + StatusTemplatePropertyKind::<C, M>::StatusEntry(entry).type_text() + ">"@,
        StatusTemplatePropertyKind::<C, M>::RepoPathList(paths).type_text() == "List<"@
            + StatusTemplatePropertyKind::<C, M>::RepoPath(path).type_text() + ">"@,
        StatusTemplatePropertyKind::<C, M>::ConflictInfoList(conflicts).type_text() == "List<"@
            + StatusTemplatePropertyKind::<C, M>::ConflictInfo(conflict).type_text() + ">"@,
        StatusTemplatePropertyKind::<C, M>::BookmarkConflictList(bookmarks).type_text() == "List<"@
            + StatusTemplatePropertyKind::<C, M>::BookmarkConflict(bookmark).type_text() + ">"@,
{
    reveal_strlit("List<");
    reveal_strlit(">");
    reveal_strlit("StatusEntry");
    reveal_strlit("List<StatusEntry>");
    reveal_strlit("RepoPath");
    reveal_strlit("List<RepoPath>");
    reveal_strlit("ConflictInfo");
    reveal_strlit("List<ConflictInfo>");
    reveal_strlit("BookmarkConflict");
    reveal_strlit("List<BookmarkConflict>");
    assert("List<StatusEntry>"@ =~= "List<"@ + "StatusEntry"@ + ">"@);
    assert("List<RepoPath>"@ =~= "List<"@ + "RepoPath"@ + ">"@);
    assert("List<ConflictInfo>"@ =~= "List<"@ + "ConflictInfo"@ + ">"@);
    assert("List<BookmarkConflict>"@ =~= "List<"@ + "BookmarkConflict"@ + ">"@);
}

} // verus!
