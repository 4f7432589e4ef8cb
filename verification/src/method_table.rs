//! Method calls in templates, and the tables that methods are looked up in.

use vstd::hash_map::StringHashMap;
use vstd::prelude::*;

verus! {

/// A place in the text of a template.
#[derive(Clone, Copy, Debug, PartialEq, Eq, Structural)]
pub struct Span {
    pub start: usize,
    pub end: usize,
}

/// The call of a method in a template.
#[derive(Clone, Debug, PartialEq, Eq)]
pub struct FunctionCall {
    pub name: String,
    /// Where the name stands.
    pub name_span: Span,
    /// The number of arguments, positional and keyword ones together.
    pub num_arguments: usize,
}

/// Why a template cannot be built.
#[derive(Clone, Debug, PartialEq, Eq)]
pub enum TemplateParseError {
    /// The type has no method of that name.
    NoSuchMethod { typename: String, name: String },
    /// The method takes no arguments.
    InvalidArguments { name: String },
    /// The expression at that place is wrong in another way.
    Expression { message: String, span: Span },
}

/// Methods by their names.
#[verifier::reject_recursive_types(T)]
pub struct MethodTable<T> {
    entries: StringHashMap<T>,
}

impl<T> View for MethodTable<T> {
    type V = Map<Seq<char>, T>;

    closed spec fn view(&self) -> Map<Seq<char>, T> {
        self.entries@
    }
}

/// The value that `map` has for `key`, if any.
pub open spec fn value_for<T>(map: Map<Seq<char>, T>, key: Seq<char>) -> Option<T> {
    if map.contains_key(key) {
        Some(map[key])
    } else {
        None
    }
}

impl<T: Copy> MethodTable<T> {
    /// A table without methods.
    pub fn new() -> (table: Self)
        ensures
            table@ == Map::<Seq<char>, T>::empty(),
    {
        MethodTable { entries: StringHashMap::new() }
    }

    /// Adds a method, in place of one that has the same name.
    pub fn insert(&mut self, name: &str, method: T)
        ensures
            final(self)@ == old(self)@.insert(name@, method),
    {
        self.entries.insert(name.to_owned(), method);
    }

    /// The method with the name `name`.
    pub fn get(&self, name: &String) -> (method: Option<T>)
        ensures
            method == value_for(self@, name@),
    {
        match self.entries.get(name.as_str()) {
            Some(method) => Some(*method),
            None => None,
        }
    }
}

/// Whether `result` is what comes of looking up the name of `call` among the methods `methods` of the
/// type with the name `type_text`.
pub open spec fn is_lookup<T>(
    methods: Map<Seq<char>, T>,
    type_text: Seq<char>,
    call: FunctionCall,
    result: Result<T, TemplateParseError>,
) -> bool {
    match value_for(methods, call.name@) {
        None => result matches Err(TemplateParseError::NoSuchMethod { typename, name }) && typename@
            == type_text && name@ == call.name@,
        Some(method) => result == Ok::<T, TemplateParseError>(method),
    }
}

/// Looks up a method by its name.
pub(crate) fn lookup_method<T: Copy>(type_text: &str, table: &MethodTable<T>, call: &FunctionCall) -> (result:
    Result<T, TemplateParseError>)
    ensures
        is_lookup(table@, type_text@, *call, result),
{
    match table.get(&call.name) {
        None => Err(
            TemplateParseError::NoSuchMethod {
                typename: type_text.to_owned(),
                name: call.name.clone(),
            },
        ),
        Some(method) => Ok(method),
    }
}

/// Whether `result` is what comes of looking up `call` among the methods `methods`, of which none
/// takes arguments: the method, unless there is none or it was given arguments.
pub open spec fn is_plain_lookup<T>(
    methods: Map<Seq<char>, T>,
    type_text: Seq<char>,
    call: FunctionCall,
    result: Result<T, TemplateParseError>,
) -> bool {
    if value_for(methods, call.name@) is Some && call.num_arguments > 0 {
        result matches Err(TemplateParseError::InvalidArguments { name }) && name@ == call.name@
    } else {
        is_lookup(methods, type_text, call, result)
    }
}

/// Looks up a method that takes no arguments.
pub(crate) fn lookup_plain_method<T: Copy>(
    type_text: &str,
    table: &MethodTable<T>,
    call: &FunctionCall,
) -> (result: Result<T, TemplateParseError>)
    ensures
        is_plain_lookup(table@, type_text@, *call, result),
{
    let method = lookup_method(type_text, table, call);
    if method.is_ok() && call.num_arguments > 0 {
        return Err(TemplateParseError::InvalidArguments { name: call.name.clone() });
    }
    method
}

/// A table has the value for a key that was put there, and none for any other.
pub proof fn law_values_by_keys<T>(map: Map<Seq<char>, T>, key: Seq<char>)
    ensures
        value_for(map, key) is Some <==> map.dom().contains(key),
        value_for(map, key) matches Some(value) ==> value == map[key],
{
}

/// Looking up a method gives the one with the name of the call, or the name and the type if there is
/// none. The arguments do not matter.
pub proof fn law_lookup_by_name<T>(
    methods: Map<Seq<char>, T>,
    type_text: Seq<char>,
    call: FunctionCall,
    result: Result<T, TemplateParseError>,
)
    requires
        is_lookup(methods, type_text, call, result),
    ensures
        result is Ok <==> methods.dom().contains(call.name@),
        result matches Ok(method) ==> method == methods[call.name@],
        result matches Err(error) ==> {
            &&& error is NoSuchMethod
            &&& error->NoSuchMethod_typename@ == type_text
            &&& error->NoSuchMethod_name@ == call.name@
        },
{
}

/// A method that takes no arguments is found exactly if it is called without any. With arguments the
/// call is refused for them if there is such a method, and for its name if there is none.
pub proof fn law_plain_lookup<T>(
    methods: Map<Seq<char>, T>,
    type_text: Seq<char>,
    call: FunctionCall,
    result: Result<T, TemplateParseError>,
)
    requires
        is_plain_lookup(methods, type_text, call, result),
    ensures
        result is Ok <==> methods.dom().contains(call.name@) && call.num_arguments == 0,
        result matches Ok(method) ==> method == methods[call.name@],
        result matches Err(error) ==> if methods.dom().contains(call.name@) {
            error is InvalidArguments && error->InvalidArguments_name@ == call.name@
        } else {
            &&& error is NoSuchMethod
            &&& error->NoSuchMethod_typename@ == type_text
            &&& error->NoSuchMethod_name@ == call.name@
        },
{
}

} // verus!
