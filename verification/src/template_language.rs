//! The template language of a status: what comes of a method call.

use crate::method_table::is_plain_lookup;
use crate::method_table::lookup_method;
use crate::method_table::lookup_plain_method;
use crate::method_table::value_for;
use crate::method_table::FunctionCall;
use crate::method_table::MethodTable;
use crate::method_table::TemplateParseError;
use crate::methods::bookmark_conflict_methods;
use crate::methods::builtin_bookmark_conflict_methods;
use crate::methods::builtin_conflict_info_methods;
use crate::methods::builtin_repo_path_methods;
use crate::methods::builtin_status_entry_methods;
use crate::methods::builtin_working_copy_status_methods;
use crate::methods::conflict_info_methods;
use crate::methods::law_bookmark_conflict_methods_found;
use crate::methods::law_conflict_info_methods_found;
use crate::methods::law_repo_path_methods_found;
use crate::methods::law_status_entry_methods_found;
use crate::methods::law_working_copy_status_methods_found;
use crate::methods::repo_path_methods;
use crate::methods::status_entry_methods;
use crate::methods::working_copy_status_methods;
use crate::methods::BookmarkConflictMethod;
use crate::methods::Built;
use crate::methods::CommitDelegation;
use crate::methods::CommitMethodTable;
use crate::methods::ConflictInfoMethod;
use crate::methods::RepoPathMethod;
use crate::methods::StatusEntryMethod;
use crate::methods::WorkingCopyStatusMethod;
use crate::property::CoreProperty;
use crate::property::law_type_texts_differ;
use crate::property::CommitProperty;
use crate::property::CommitPropertyKind;
use crate::property::StatusTemplatePropertyKind;
use crate::repo_path::RepoPathBuf;
use crate::repo_path::RepoPathUiConverter;
use crate::status_templater::BookmarkConflict;
use crate::status_templater::ConflictInfo;
use crate::status_templater::StatusEntry;
use crate::status_templater::WorkingCopyStatus;
use vstd::prelude::*;

verus! {

/// Build function tables for status templates
#[verifier::reject_recursive_types(L)]
pub struct StatusTemplateBuildFnTable<L> {
    /// Methods available on WorkingCopyStatus type
    pub working_copy_status_methods: MethodTable<WorkingCopyStatusMethod>,
    /// Methods available on StatusEntry type
    pub status_entry_methods: MethodTable<StatusEntryMethod>,
    /// Methods available on RepoPath type
    pub repo_path_methods: MethodTable<RepoPathMethod>,
    /// Methods available on ConflictInfo type
    pub conflict_info_methods: MethodTable<ConflictInfoMethod>,
    /// Methods available on BookmarkConflict type
    pub bookmark_conflict_methods: MethodTable<BookmarkConflictMethod>,
    /// Methods available on a list of any of these types
    pub list_methods: MethodTable<L>,
}

impl<L> StatusTemplateBuildFnTable<L> {
    /// Whether the methods of all types but lists are those that the language comes with.
    pub open spec fn is_builtin(self) -> bool {
        &&& self.working_copy_status_methods@ == working_copy_status_methods()
        &&& self.status_entry_methods@ == status_entry_methods()
        &&& self.repo_path_methods@ == repo_path_methods()
        &&& self.conflict_info_methods@ == conflict_info_methods()
        &&& self.bookmark_conflict_methods@ == bookmark_conflict_methods()
    }

    /// The methods that the language comes with, and `list_methods` for lists.
    pub fn builtin(list_methods: MethodTable<L>) -> (table: Self)
        ensures
            table.is_builtin(),
            table.list_methods@ == list_methods@,
    {
        StatusTemplateBuildFnTable {
            working_copy_status_methods: builtin_working_copy_status_methods(),
            status_entry_methods: builtin_status_entry_methods(),
            repo_path_methods: builtin_repo_path_methods(),
            conflict_info_methods: builtin_conflict_info_methods(),
            bookmark_conflict_methods: builtin_bookmark_conflict_methods(),
            list_methods,
        }
    }
}

/// Template environment for `jj status`
///
/// Provides status-specific keywords and methods for templating.
#[verifier::reject_recursive_types(L)]
pub struct StatusTemplateLanguage<L> {
    path_converter: RepoPathUiConverter,
    /// Build function table for status keywords
    build_fn_table: StatusTemplateBuildFnTable<L>,
}

/// Whether the call `call` of a method of the type with the name `type_text` comes to `result`,
/// where the type's methods are `methods`, none of them takes arguments, and a method may give the
/// values for which `gives` holds.
pub open spec fn is_method_call<T, C, M, L>(
    methods: Map<Seq<char>, T>,
    type_text: Seq<char>,
    call: FunctionCall,
    gives: spec_fn(T, Built<C, M, L>) -> bool,
    result: Result<Built<C, M, L>, TemplateParseError>,
) -> bool {
    match result {
        Ok(built) => {
            &&& call.num_arguments == 0
            &&& value_for(methods, call.name@) matches Some(method) && gives(method, built)
        },
        Err(error) => is_plain_lookup(methods, type_text, call, Err(error)),
    }
}

/// Whether the call `call` of a method of the list `list` comes to `result`, where the methods of
/// lists are `methods`: the method is handed on with the list, unless there is none of that name.
pub open spec fn is_list_method_call<C, M, L>(
    methods: Map<Seq<char>, L>,
    list: StatusTemplatePropertyKind<C, M>,
    call: FunctionCall,
    result: Result<Built<C, M, L>, TemplateParseError>,
) -> bool {
    match value_for(methods, call.name@) {
        None => result matches Err(TemplateParseError::NoSuchMethod { typename, name }) && typename@
            == list.type_text() && name@ == call.name@,
        Some(method) => result == Ok::<Built<C, M, L>, TemplateParseError>(
            Built::ListMethod(method, list),
        ),
    }
}

/// The table of the commit template language that has the methods of a kind of properties.
pub open spec fn commit_method_table(kind: CommitPropertyKind) -> Option<CommitMethodTable> {
    match kind {
        CommitPropertyKind::Core => Some(CommitMethodTable::Core),
        CommitPropertyKind::Operation => Some(CommitMethodTable::Operation),
        CommitPropertyKind::Commit => Some(CommitMethodTable::Commit),
        CommitPropertyKind::CommitOpt => Some(CommitMethodTable::Commit),
        CommitPropertyKind::CommitList => Some(CommitMethodTable::CommitList),
        CommitPropertyKind::ChangeId => Some(CommitMethodTable::ChangeId),
        CommitPropertyKind::CommitId => Some(CommitMethodTable::CommitId),
        CommitPropertyKind::CommitRef => Some(CommitMethodTable::CommitRef),
        CommitPropertyKind::CommitRefList => Some(CommitMethodTable::CommitRefList),
        CommitPropertyKind::Other => None,
    }
}

/// The name that the type of a property goes by where the commit template language lacks a method.
pub open spec fn commit_lookup_type<M>(property: CommitProperty<M>) -> Option<Seq<char>> {
    match property.kind {
        CommitPropertyKind::Core => None,
        CommitPropertyKind::Operation => None,
        CommitPropertyKind::CommitOpt => Some("Commit"@),
        _ => Some(property.typename@),
    }
}

/// Whether a call on a property of the commit template language comes to `result`.
pub open spec fn is_commit_method_call<C, M, L>(
    property: CommitProperty<M>,
    call: FunctionCall,
    result: Result<Built<C, M, L>, TemplateParseError>,
) -> bool {
    match commit_method_table(property.kind) {
        Some(table) => result matches Ok(Built::CommitMethod(delegation)) && {
            &&& delegation.table == table
            &&& delegation.property == property
            &&& delegation.unwraps == (property.kind == CommitPropertyKind::CommitOpt)
            &&& match delegation.lookup_type {
                Some(name) => commit_lookup_type(property) == Some(name@),
                None => commit_lookup_type(property) is None,
            }
        },
        None => result matches Err(TemplateParseError::Expression { message, span }) && message@
            == "Method delegation not yet implemented for "@ + property.typename@ && span
            == call.name_span,
    }
}

/// Whether calling a method on `property`, with paths shown by `converter` and the methods
/// `list_methods` of lists, comes to `result`.
pub open spec fn is_build<C, M, L>(
    converter: RepoPathUiConverter,
    list_methods: Map<Seq<char>, L>,
    property: StatusTemplatePropertyKind<C, M>,
    call: FunctionCall,
    result: Result<Built<C, M, L>, TemplateParseError>,
) -> bool {
    match property {
        StatusTemplatePropertyKind::Core(core) => result == Ok::<
            Built<C, M, L>,
            TemplateParseError,
        >(Built::CoreMethod(core)),
        StatusTemplatePropertyKind::CommitTemplate(commit) => is_commit_method_call(
            commit,
            call,
            result,
        ),
        StatusTemplatePropertyKind::WorkingCopyStatus(status) => is_method_call(
            working_copy_status_methods(),
            "WorkingCopyStatus"@,
            call,
            |method: WorkingCopyStatusMethod, built: Built<C, M, L>|
                method.gives(status, built),
            result,
        ),
        StatusTemplatePropertyKind::StatusEntry(entry) => is_method_call(
            status_entry_methods(),
            "StatusEntry"@,
            call,
            |method: StatusEntryMethod, built: Built<C, M, L>|
                method.gives(converter, entry, built),
            result,
        ),
        StatusTemplatePropertyKind::RepoPath(path) => is_method_call(
            repo_path_methods(),
            "RepoPath"@,
            call,
            |method: RepoPathMethod, built: Built<C, M, L>|
                method.gives(converter, path, built),
            result,
        ),
        StatusTemplatePropertyKind::ConflictInfo(conflict) => is_method_call(
            conflict_info_methods(),
            "ConflictInfo"@,
            call,
            |method: ConflictInfoMethod, built: Built<C, M, L>| method.gives(conflict, built),
            result,
        ),
        StatusTemplatePropertyKind::BookmarkConflict(bookmark) => is_method_call(
            bookmark_conflict_methods(),
            "BookmarkConflict"@,
            call,
            |method: BookmarkConflictMethod, built: Built<C, M, L>|
                method.gives(bookmark, built),
            result,
        ),
        list => is_list_method_call(list_methods, list, call, result),
    }
}

/// Routes a call on a property of the commit template language to the table with its methods.
fn build_commit_method<C, M, L>(property: CommitProperty<M>, call: &FunctionCall) -> (result: Result<
    Built<C, M, L>,
    TemplateParseError,
>)
    ensures
        is_commit_method_call(property, *call, result),
{
    let (table, lookup_type, unwraps) = match property.kind {
        CommitPropertyKind::Core => (CommitMethodTable::Core, None, false),
        CommitPropertyKind::Operation => (CommitMethodTable::Operation, None, false),
        CommitPropertyKind::Commit => {
            (CommitMethodTable::Commit, Some(property.typename.clone()), false)
        },
        CommitPropertyKind::CommitOpt => {
            (CommitMethodTable::Commit, Some("Commit".to_owned()), true)
        },
        CommitPropertyKind::CommitList => {
            (CommitMethodTable::CommitList, Some(property.typename.clone()), false)
        },
        CommitPropertyKind::ChangeId => {
            (CommitMethodTable::ChangeId, Some(property.typename.clone()), false)
        },
        CommitPropertyKind::CommitId => {
            (CommitMethodTable::CommitId, Some(property.typename.clone()), false)
        },
        CommitPropertyKind::CommitRef => {
            (CommitMethodTable::CommitRef, Some(property.typename.clone()), false)
        },
        CommitPropertyKind::CommitRefList => {
            (CommitMethodTable::CommitRefList, Some(property.typename.clone()), false)
        },
        CommitPropertyKind::Other => {
            let mut message = "Method delegation not yet implemented for ".to_owned();
            message.append(property.typename.as_str());
            return Err(TemplateParseError::Expression { message, span: call.name_span });
        },
    };
    Ok(Built::CommitMethod(CommitDelegation { table, lookup_type, unwraps, property }))
}

/// What comes of a call on a property of the commit template language, where that language built
/// `built`: a property of the commit template language again, never one of a core type, or the same
/// error.
pub fn wrap_commit_result<C, M>(built: Result<CommitProperty<M>, TemplateParseError>) -> (result:
    Result<StatusTemplatePropertyKind<C, M>, TemplateParseError>)
    ensures
        match built {
            Ok(property) => result == Ok::<StatusTemplatePropertyKind<C, M>, TemplateParseError>(
                StatusTemplatePropertyKind::CommitTemplate(property),
            ),
            Err(error) => result == Err::<StatusTemplatePropertyKind<C, M>, TemplateParseError>(
                error,
            ),
        },
        result matches Ok(property) ==> property is CommitTemplate,
{
    match built {
        Ok(property) => Ok(StatusTemplatePropertyKind::CommitTemplate(property)),
        Err(error) => Err(error),
    }
}

impl<L> StatusTemplateLanguage<L> {
    /// What shows paths to the user.
    pub closed spec fn converter(&self) -> RepoPathUiConverter {
        self.path_converter
    }

    /// The methods of lists, by their names.
    pub closed spec fn list_methods(&self) -> Map<Seq<char>, L> {
        self.build_fn_table.list_methods@
    }

    #[verifier::type_invariant]
    spec fn valid(self) -> bool {
        self.build_fn_table.is_builtin()
    }

    /// Create a new StatusTemplateLanguage
    ///
    /// The methods of lists are those of all lists whose items have no form as text.
    pub fn new(path_converter: RepoPathUiConverter, list_methods: MethodTable<L>) -> (language: Self)
        ensures
            language.converter() == path_converter,
            language.list_methods() == list_methods@,
    {
        StatusTemplateLanguage {
            path_converter,
            build_fn_table: StatusTemplateBuildFnTable::builtin(list_methods),
        }
    }
}

impl<L: Copy> StatusTemplateLanguage<L> {
    /// Looks up a method of a list, and hands it on with the list.
    fn build_list_method<C, M>(
        &self,
        list: StatusTemplatePropertyKind<C, M>,
        call: &FunctionCall,
    ) -> (result: Result<Built<C, M, L>, TemplateParseError>)
        ensures
            is_list_method_call(self.list_methods(), list, *call, result),
    {
        match lookup_method(list.typename(), &self.build_fn_table.list_methods, call) {
            Ok(method) => Ok(Built::ListMethod(method, list)),
            Err(error) => Err(error),
        }
    }

    /// Calls a method on a property, or says which language is to build the call.
    pub fn build_method<C, M>(
        &self,
        property: StatusTemplatePropertyKind<C, M>,
        call: &FunctionCall,
    ) -> (result: Result<Built<C, M, L>, TemplateParseError>)
        ensures
            is_build(self.converter(), self.list_methods(), property, *call, result),
    {
        proof {
            use_type_invariant(self);
        }
        let table = &self.build_fn_table;
        match property {
            StatusTemplatePropertyKind::Core(core) => Ok(Built::CoreMethod(core)),
            StatusTemplatePropertyKind::CommitTemplate(commit) => {
                build_commit_method(commit, call)
            },
            StatusTemplatePropertyKind::WorkingCopyStatus(status) => {
                match lookup_plain_method("WorkingCopyStatus", &table.working_copy_status_methods, call) {
                    Ok(method) => Ok(method.build(status)),
                    Err(error) => Err(error),
                }
            },
            StatusTemplatePropertyKind::StatusEntry(entry) => {
                match lookup_plain_method("StatusEntry", &table.status_entry_methods, call) {
                    Ok(method) => Ok(method.build(&self.path_converter, entry)),
                    Err(error) => Err(error),
                }
            },
            StatusTemplatePropertyKind::RepoPath(path) => {
                match lookup_plain_method("RepoPath", &table.repo_path_methods, call) {
                    Ok(method) => Ok(method.build(&self.path_converter, path)),
                    Err(error) => Err(error),
                }
            },
            StatusTemplatePropertyKind::ConflictInfo(conflict) => {
                match lookup_plain_method("ConflictInfo", &table.conflict_info_methods, call) {
                    Ok(method) => Ok(method.build(conflict)),
                    Err(error) => Err(error),
                }
            },
            StatusTemplatePropertyKind::BookmarkConflict(bookmark) => {
                match lookup_plain_method("BookmarkConflict", &table.bookmark_conflict_methods, call) {
                    Ok(method) => Ok(method.build(bookmark)),
                    Err(error) => Err(error),
                }
            },
            StatusTemplatePropertyKind::StatusEntryList(list) => {
                self.build_list_method(StatusTemplatePropertyKind::StatusEntryList(list), call)
            },
            StatusTemplatePropertyKind::RepoPathList(list) => {
                self.build_list_method(StatusTemplatePropertyKind::RepoPathList(list), call)
            },
            StatusTemplatePropertyKind::ConflictInfoList(list) => {
                self.build_list_method(StatusTemplatePropertyKind::ConflictInfoList(list), call)
            },
            StatusTemplatePropertyKind::BookmarkConflictList(list) => {
                self.build_list_method(StatusTemplatePropertyKind::BookmarkConflictList(list), call)
            },
        }
    }
}

/// What a method call builds rests on the type of the property alone: for two properties of the
/// same type the same call succeeds or fails, and gives values of the same type.
pub proof fn law_build_by_type<C, M, L>(
    converter: RepoPathUiConverter,
    list_methods: Map<Seq<char>, L>,
    a: StatusTemplatePropertyKind<C, M>,
    b: StatusTemplatePropertyKind<C, M>,
    call: FunctionCall,
    result_a: Result<Built<C, M, L>, TemplateParseError>,
    result_b: Result<Built<C, M, L>, TemplateParseError>,
)
    requires
        a.delegate() is None,
        b.delegate() is None,
        a.type_text() == b.type_text(),
        is_build(converter, list_methods, a, call, result_a),
        is_build(converter, list_methods, b, call, result_b),
    ensures
        result_a is Ok <==> result_b is Ok,
        result_a matches Ok(built) ==> built.value_type() == result_b->Ok_0.value_type(),
{
    law_type_texts_differ(a, b);
}

/// Whether `name` is the name of a method of `property`, which is of one of the types of a status,
/// where lists have the methods `list_methods`.
pub open spec fn has_method<C, M, L>(
    list_methods: Map<Seq<char>, L>,
    property: StatusTemplatePropertyKind<C, M>,
    name: Seq<char>,
) -> bool {
    match property {
        StatusTemplatePropertyKind::WorkingCopyStatus(_) => exists|method: WorkingCopyStatusMethod|
            method.method_name() == name,
        StatusTemplatePropertyKind::StatusEntry(_) => exists|method: StatusEntryMethod|
            method.method_name() == name,
        StatusTemplatePropertyKind::RepoPath(_) => exists|method: RepoPathMethod|
            method.method_name() == name,
        StatusTemplatePropertyKind::ConflictInfo(_) => exists|method: ConflictInfoMethod|
            method.method_name() == name,
        StatusTemplatePropertyKind::BookmarkConflict(_) => exists|method: BookmarkConflictMethod|
            method.method_name() == name,
        _ => property.is_status_list() && list_methods.contains_key(name),
    }
}

/// No method of the types of a status takes arguments, but for those of lists.
pub proof fn law_arguments_are_refused<C, M, L>(
    converter: RepoPathUiConverter,
    list_methods: Map<Seq<char>, L>,
    property: StatusTemplatePropertyKind<C, M>,
    call: FunctionCall,
    result: Result<Built<C, M, L>, TemplateParseError>,
)
    requires
        property.delegate() is None,
        property.is_status_list() ==> !has_method(list_methods, property, call.name@),
        call.num_arguments > 0,
        is_build(converter, list_methods, property, call, result),
    ensures
        result is Err,
{
}

/// A method that a type of a status has can be called without arguments.
pub proof fn law_methods_can_be_called<C, M, L>(
    converter: RepoPathUiConverter,
    list_methods: Map<Seq<char>, L>,
    property: StatusTemplatePropertyKind<C, M>,
    call: FunctionCall,
    result: Result<Built<C, M, L>, TemplateParseError>,
)
    requires
        has_method(list_methods, property, call.name@),
        call.num_arguments == 0,
        is_build(converter, list_methods, property, call, result),
    ensures
        result is Ok,
{
    match property {
        StatusTemplatePropertyKind::WorkingCopyStatus(_) => {
            law_working_copy_status_methods_found(
                choose|method: WorkingCopyStatusMethod| method.method_name() == call.name@,
            );
        },
        StatusTemplatePropertyKind::StatusEntry(_) => {
            law_status_entry_methods_found(
                choose|method: StatusEntryMethod| method.method_name() == call.name@,
            );
        },
        StatusTemplatePropertyKind::RepoPath(_) => {
            law_repo_path_methods_found(
                choose|method: RepoPathMethod| method.method_name() == call.name@,
            );
        },
        StatusTemplatePropertyKind::ConflictInfo(_) => {
            law_conflict_info_methods_found(
                choose|method: ConflictInfoMethod| method.method_name() == call.name@,
            );
        },
        StatusTemplatePropertyKind::BookmarkConflict(_) => {
            law_bookmark_conflict_methods_found(
                choose|method: BookmarkConflictMethod| method.method_name() == call.name@,
            );
        },
        _ => {},
    }
}

/// A call of a method that a type of a status lacks is refused, with the name of the type.
pub proof fn law_unknown_methods_are_refused<C, M, L>(
    converter: RepoPathUiConverter,
    list_methods: Map<Seq<char>, L>,
    property: StatusTemplatePropertyKind<C, M>,
    call: FunctionCall,
    result: Result<Built<C, M, L>, TemplateParseError>,
)
    requires
        property.delegate() is None,
        !has_method(list_methods, property, call.name@),
        is_build(converter, list_methods, property, call, result),
    ensures
        result matches Err(TemplateParseError::NoSuchMethod { typename, name }) && typename@
            == property.type_text() && name@ == call.name@,
{
    match property {
        StatusTemplatePropertyKind::WorkingCopyStatus(_) => {
            if let Some(method) = value_for(working_copy_status_methods(), call.name@) {
                law_working_copy_status_methods_found(method);
            }
        },
        StatusTemplatePropertyKind::StatusEntry(_) => {
            if let Some(method) = value_for(status_entry_methods(), call.name@) {
                law_status_entry_methods_found(method);
            }
        },
        StatusTemplatePropertyKind::RepoPath(_) => {
            if let Some(method) = value_for(repo_path_methods(), call.name@) {
                law_repo_path_methods_found(method);
            }
        },
        StatusTemplatePropertyKind::ConflictInfo(_) => {
            if let Some(method) = value_for(conflict_info_methods(), call.name@) {
                law_conflict_info_methods_found(method);
            }
        },
        StatusTemplatePropertyKind::BookmarkConflict(_) => {
            if let Some(method) = value_for(bookmark_conflict_methods(), call.name@) {
                law_bookmark_conflict_methods_found(method);
            }
        },
        _ => {},
    }
}

/// All lists have the same methods: a call succeeds on one exactly if it does on another, by the same
/// method.
pub proof fn law_lists_share_methods<C, M, L>(
    converter: RepoPathUiConverter,
    list_methods: Map<Seq<char>, L>,
    a: StatusTemplatePropertyKind<C, M>,
    b: StatusTemplatePropertyKind<C, M>,
    call: FunctionCall,
    result_a: Result<Built<C, M, L>, TemplateParseError>,
    result_b: Result<Built<C, M, L>, TemplateParseError>,
)
    requires
        a.is_status_list(),
        b.is_status_list(),
        is_build(converter, list_methods, a, call, result_a),
        is_build(converter, list_methods, b, call, result_b),
    ensures
        result_a is Ok <==> result_b is Ok,
        result_a matches Ok(built) ==> built is ListMethod && result_b->Ok_0 is ListMethod
            && built->ListMethod_0 == result_b->Ok_0->ListMethod_0,
{
}

/// What a call on a property of the commit template language comes to is for that language to build:
/// it is never a value or a call of the core language.
pub proof fn law_commit_calls_stay_commits<C, M, L>(
    converter: RepoPathUiConverter,
    list_methods: Map<Seq<char>, L>,
    property: StatusTemplatePropertyKind<C, M>,
    call: FunctionCall,
    result: Result<Built<C, M, L>, TemplateParseError>,
)
    requires
        property is CommitTemplate,
        is_build(converter, list_methods, property, call, result),
    ensures
        result matches Ok(built) ==> built is CommitMethod,
        result matches Err(error) ==> error is Expression,
{
}

/// An optional commit has the methods of a commit, and goes by the name of one where a method is
/// missing.
pub proof fn law_optional_commits_are_commits<C, M, L>(
    optional: CommitProperty<M>,
    commit: CommitProperty<M>,
    call: FunctionCall,
    result_optional: Result<Built<C, M, L>, TemplateParseError>,
    result_commit: Result<Built<C, M, L>, TemplateParseError>,
)
    requires
        optional.kind == CommitPropertyKind::CommitOpt,
        commit.kind == CommitPropertyKind::Commit,
        commit.typename@ == "Commit"@,
        is_commit_method_call(optional, call, result_optional),
        is_commit_method_call(commit, call, result_commit),
    ensures
        result_optional matches Ok(Built::CommitMethod(a)) && result_commit matches Ok(
            Built::CommitMethod(b),
        ) && {
            &&& a.table == b.table
            &&& a.lookup_type matches Some(name_a) && b.lookup_type matches Some(name_b) && name_a@
                == name_b@
            &&& a.unwraps && !b.unwraps
        },
{
}

/// A call on a status gives what the method of that name gives, if there is one and it was
/// given no arguments, and is refused otherwise for its arguments or for its name.
pub proof fn law_calls_on_statuses<C, M, L>(
    converter: RepoPathUiConverter,
    list_methods: Map<Seq<char>, L>,
    status: WorkingCopyStatus,
    call: FunctionCall,
    result: Result<Built<C, M, L>, TemplateParseError>,
)
    requires
        is_build(
            converter,
            list_methods,
            StatusTemplatePropertyKind::WorkingCopyStatus(status),
            call,
            result,
        ),
    ensures
        match result {
            Ok(built) => call.num_arguments == 0 && exists|method: WorkingCopyStatusMethod|
                #[trigger] method.method_name() == call.name@ && method.gives(status, built),
            Err(TemplateParseError::InvalidArguments { name }) => name@ == call.name@
                && call.num_arguments > 0 && exists|method: WorkingCopyStatusMethod|
                #[trigger] method.method_name() == call.name@,
            Err(TemplateParseError::NoSuchMethod { typename, name }) => typename@ == "WorkingCopyStatus"@
                && name@ == call.name@ && forall|method: WorkingCopyStatusMethod|
                #[trigger] method.method_name() != call.name@,
            Err(TemplateParseError::Expression { message: _, span: _ }) => false,
        },
{
    if let Some(method) = value_for(working_copy_status_methods(), call.name@) {
        law_working_copy_status_methods_found(method);
        assert(method.method_name() == call.name@);
    } else {
        assert forall|method: WorkingCopyStatusMethod| #[trigger] method.method_name() != call.name@ by {
            law_working_copy_status_methods_found(method);
        }
    }
}

/// A call on a file change gives what the method of that name gives, if there is one and it was
/// given no arguments, and is refused otherwise for its arguments or for its name.
pub proof fn law_calls_on_file_changes<C, M, L>(
    converter: RepoPathUiConverter,
    list_methods: Map<Seq<char>, L>,
    entry: StatusEntry,
    call: FunctionCall,
    result: Result<Built<C, M, L>, TemplateParseError>,
)
    requires
        is_build(
            converter,
            list_methods,
            StatusTemplatePropertyKind::StatusEntry(entry),
            call,
            result,
        ),
    ensures
        match result {
            Ok(built) => call.num_arguments == 0 && exists|method: StatusEntryMethod|
                #[trigger] method.method_name() == call.name@ && method.gives(
                    converter,
                    entry,
                    built,
                ),
            Err(TemplateParseError::InvalidArguments { name }) => name@ == call.name@
                && call.num_arguments > 0 && exists|method: StatusEntryMethod|
                #[trigger] method.method_name() == call.name@,
            Err(TemplateParseError::NoSuchMethod { typename, name }) => typename@ == "StatusEntry"@
                && name@ == call.name@ && forall|method: StatusEntryMethod|
                #[trigger] method.method_name() != call.name@,
            Err(TemplateParseError::Expression { message: _, span: _ }) => false,
        },
{
    if let Some(method) = value_for(status_entry_methods(), call.name@) {
        law_status_entry_methods_found(method);
        assert(method.method_name() == call.name@);
    } else {
        assert forall|method: StatusEntryMethod| #[trigger] method.method_name() != call.name@ by {
            law_status_entry_methods_found(method);
        }
    }
}

/// A call on a path gives what the method of that name gives, if there is one and it was
/// given no arguments, and is refused otherwise for its arguments or for its name.
pub proof fn law_calls_on_paths<C, M, L>(
    converter: RepoPathUiConverter,
    list_methods: Map<Seq<char>, L>,
    path: RepoPathBuf,
    call: FunctionCall,
    result: Result<Built<C, M, L>, TemplateParseError>,
)
    requires
        is_build(
            converter,
            list_methods,
            StatusTemplatePropertyKind::RepoPath(path),
            call,
            result,
        ),
    ensures
        match result {
            Ok(built) => call.num_arguments == 0 && exists|method: RepoPathMethod|
                #[trigger] method.method_name() == call.name@ && method.gives(
                    converter,
                    path,
                    built,
                ),
            Err(TemplateParseError::InvalidArguments { name }) => name@ == call.name@
                && call.num_arguments > 0 && exists|method: RepoPathMethod|
                #[trigger] method.method_name() == call.name@,
            Err(TemplateParseError::NoSuchMethod { typename, name }) => typename@ == "RepoPath"@
                && name@ == call.name@ && forall|method: RepoPathMethod|
                #[trigger] method.method_name() != call.name@,
            Err(TemplateParseError::Expression { message: _, span: _ }) => false,
        },
{
    if let Some(method) = value_for(repo_path_methods(), call.name@) {
        law_repo_path_methods_found(method);
        assert(method.method_name() == call.name@);
    } else {
        assert forall|method: RepoPathMethod| #[trigger] method.method_name() != call.name@ by {
            law_repo_path_methods_found(method);
        }
    }
}

/// A call on a conflict gives what the method of that name gives, if there is one and it was
/// given no arguments, and is refused otherwise for its arguments or for its name.
pub proof fn law_calls_on_conflicts<C, M, L>(
    converter: RepoPathUiConverter,
    list_methods: Map<Seq<char>, L>,
    conflict: ConflictInfo,
    call: FunctionCall,
    result: Result<Built<C, M, L>, TemplateParseError>,
)
    requires
        is_build(
            converter,
            list_methods,
            StatusTemplatePropertyKind::ConflictInfo(conflict),
            call,
            result,
        ),
    ensures
        match result {
            Ok(built) => call.num_arguments == 0 && exists|method: ConflictInfoMethod|
                #[trigger] method.method_name() == call.name@ && method.gives(conflict, built),
            Err(TemplateParseError::InvalidArguments { name }) => name@ == call.name@
                && call.num_arguments > 0 && exists|method: ConflictInfoMethod|
                #[trigger] method.method_name() == call.name@,
            Err(TemplateParseError::NoSuchMethod { typename, name }) => typename@ == "ConflictInfo"@
                && name@ == call.name@ && forall|method: ConflictInfoMethod|
                #[trigger] method.method_name() != call.name@,
            Err(TemplateParseError::Expression { message: _, span: _ }) => false,
        },
{
    if let Some(method) = value_for(conflict_info_methods(), call.name@) {
        law_conflict_info_methods_found(method);
        assert(method.method_name() == call.name@);
    } else {
        assert forall|method: ConflictInfoMethod| #[trigger] method.method_name() != call.name@ by {
            law_conflict_info_methods_found(method);
        }
    }
}

/// A call on a conflicted bookmark gives what the method of that name gives, if there is one and it was
/// given no arguments, and is refused otherwise for its arguments or for its name.
pub proof fn law_calls_on_bookmark_conflicts<C, M, L>(
    converter: RepoPathUiConverter,
    list_methods: Map<Seq<char>, L>,
    bookmark: BookmarkConflict,
    call: FunctionCall,
    result: Result<Built<C, M, L>, TemplateParseError>,
)
    requires
        is_build(
            converter,
            list_methods,
            StatusTemplatePropertyKind::BookmarkConflict(bookmark),
            call,
            result,
        ),
    ensures
        match result {
            Ok(built) => call.num_arguments == 0 && exists|method: BookmarkConflictMethod|
                #[trigger] method.method_name() == call.name@ && method.gives(bookmark, built),
            Err(TemplateParseError::InvalidArguments { name }) => name@ == call.name@
                && call.num_arguments > 0 && exists|method: BookmarkConflictMethod|
                #[trigger] method.method_name() == call.name@,
            Err(TemplateParseError::NoSuchMethod { typename, name }) => typename@ == "BookmarkConflict"@
                && name@ == call.name@ && forall|method: BookmarkConflictMethod|
                #[trigger] method.method_name() != call.name@,
            Err(TemplateParseError::Expression { message: _, span: _ }) => false,
        },
{
    if let Some(method) = value_for(bookmark_conflict_methods(), call.name@) {
        law_bookmark_conflict_methods_found(method);
        assert(method.method_name() == call.name@);
    } else {
        assert forall|method: BookmarkConflictMethod| #[trigger] method.method_name() != call.name@ by {
            law_bookmark_conflict_methods_found(method);
        }
    }
}

/// A call on a list hands on the method of that name with the list itself, whatever the arguments are,
/// or is refused with the name of the list's type.
pub proof fn law_calls_on_lists<C, M, L>(
    converter: RepoPathUiConverter,
    list_methods: Map<Seq<char>, L>,
    list: StatusTemplatePropertyKind<C, M>,
    call: FunctionCall,
    result: Result<Built<C, M, L>, TemplateParseError>,
)
    requires
        list is StatusEntryList || list is RepoPathList || list is ConflictInfoList
            || list is BookmarkConflictList,
        is_build(converter, list_methods, list, call, result),
    ensures
        result is Ok <==> list_methods.dom().contains(call.name@),
        result matches Ok(built) ==> built matches Built::ListMethod(method, handed) && method
            == list_methods[call.name@] && handed == list,
        result matches Err(error) ==> {
            &&& error is NoSuchMethod
            &&& error->NoSuchMethod_name@ == call.name@
            &&& list is StatusEntryList ==> error->NoSuchMethod_typename@ == "List<StatusEntry>"@
            &&& list is RepoPathList ==> error->NoSuchMethod_typename@ == "List<RepoPath>"@
            &&& list is ConflictInfoList ==> error->NoSuchMethod_typename@ == "List<ConflictInfo>"@
            &&& list is BookmarkConflictList ==> error->NoSuchMethod_typename@
                == "List<BookmarkConflict>"@
        },
{
}

/// A call on a core property is handed to the core language with the property itself.
pub proof fn law_calls_on_core_properties<C, M, L>(
    converter: RepoPathUiConverter,
    list_methods: Map<Seq<char>, L>,
    core: CoreProperty<C>,
    call: FunctionCall,
    result: Result<Built<C, M, L>, TemplateParseError>,
)
    requires
        is_build(converter, list_methods, StatusTemplatePropertyKind::Core(core), call, result),
    ensures
        result matches Ok(Built::CoreMethod(handed)) && handed == core,
{
}

/// A call on a property of the commit template language is handed to that language with the property
/// itself, to the table of its kind, by the name of its type; an optional commit goes by the table
/// and the name of a commit, and is the only one to be unwrapped. Kinds without a table are refused
/// where the method's name stands.
pub proof fn law_calls_on_commit_properties<C, M, L>(
    converter: RepoPathUiConverter,
    list_methods: Map<Seq<char>, L>,
    property: CommitProperty<M>,
    call: FunctionCall,
    result: Result<Built<C, M, L>, TemplateParseError>,
)
    requires
        is_build(
            converter,
            list_methods,
            StatusTemplatePropertyKind::CommitTemplate(property),
            call,
            result,
        ),
    ensures
        result is Err <==> property.kind == CommitPropertyKind::Other,
        result matches Err(error) ==> {
            &&& error is Expression
            &&& error->Expression_span == call.name_span
            &&& error->Expression_message@ == "Method delegation not yet implemented for "@
                + property.typename@
        },
        result matches Ok(built) ==> built matches Built::CommitMethod(delegation) && {
            let kind = property.kind;
            let table = delegation.table;
            &&& delegation.property == property
            &&& delegation.unwraps <==> kind == CommitPropertyKind::CommitOpt
            &&& delegation.lookup_type is None <==> kind == CommitPropertyKind::Core || kind
                == CommitPropertyKind::Operation
            &&& delegation.lookup_type matches Some(name) ==> name@ == (if kind
                == CommitPropertyKind::CommitOpt {
                "Commit"@
            } else {
                property.typename@
            })
            &&& table == CommitMethodTable::Core <==> kind == CommitPropertyKind::Core
            &&& table == CommitMethodTable::Operation <==> kind == CommitPropertyKind::Operation
            &&& table == CommitMethodTable::Commit <==> kind == CommitPropertyKind::Commit || kind
                == CommitPropertyKind::CommitOpt
            &&& table == CommitMethodTable::CommitList <==> kind == CommitPropertyKind::CommitList
            &&& table == CommitMethodTable::ChangeId <==> kind == CommitPropertyKind::ChangeId
            &&& table == CommitMethodTable::CommitId <==> kind == CommitPropertyKind::CommitId
            &&& table == CommitMethodTable::CommitRef <==> kind == CommitPropertyKind::CommitRef
            &&& table == CommitMethodTable::CommitRefList <==> kind
                == CommitPropertyKind::CommitRefList
        },
{
}

} // verus!
