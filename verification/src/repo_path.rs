//! Paths inside a repository, and how they are shown to the user.
//!
//! A path is a sequence of components. Its internal form is the string of the components with a
//! `/` between each two of them; the root is the empty string.

use jj_lib::repo_path::InvalidNewRepoPathError;
use vstd::prelude::*;

verus! {

/// A path component: not empty, and without a separator.
pub open spec fn is_component(name: Seq<char>) -> bool {
    &&& name.len() > 0
    &&& !name.contains('/')
}

/// The strings that are the internal form of a path: no separator at either end, and no two
/// separators in a row.
pub open spec fn is_internal_path(value: Seq<char>) -> bool {
    &&& value.len() > 0 ==> value[0] != '/' && value.last() != '/'
    &&& forall|i: int| 0 <= i < value.len() - 1 && #[trigger] value[i] == '/' ==> value[i + 1] != '/'
}

/// The components of an internal path.
pub open spec fn components(value: Seq<char>) -> Seq<Seq<char>>
    decreases value.len(),
{
    if value.len() == 0 {
        Seq::empty()
    } else {
        let front = components(value.drop_last());
        if value.last() == '/' {
            front.push(Seq::empty())
        } else if front.len() == 0 {
            seq![seq![value.last()]]
        } else {
            front.drop_last().push(front.last().push(value.last()))
        }
    }
}

/// The internal form of the path with the given components.
pub open spec fn internal_path(parts: Seq<Seq<char>>) -> Seq<char>
    decreases parts.len(),
{
    if parts.len() == 0 {
        Seq::empty()
    } else {
        join_internal(internal_path(parts.drop_last()), parts.last())
    }
}

/// The internal form of the entry `name` in the directory `dir`.
pub open spec fn join_internal(dir: Seq<char>, name: Seq<char>) -> Seq<char> {
    if dir.len() == 0 {
        name
    } else {
        dir.push('/') + name
    }
}

/// The views of the strings in `list`.
pub open spec fn string_views(list: Seq<String>) -> Seq<Seq<char>> {
    list.map_values(|s: String| s@)
}

/// A string ends up in the components that its characters were split into: none is lost, and the
/// separators are the only characters left out.
proof fn lemma_components_parts(value: Seq<char>)
    requires
        value.len() > 0 ==> value[0] != '/',
    ensures
        value.len() == 0 <==> components(value).len() == 0,
        internal_path(components(value)) == value,
        forall|i: int, k: int|
            0 <= i < components(value).len() && 0 <= k < components(value)[i].len()
                ==> components(value)[i][k] != '/',
    decreases value.len(),
{
    if value.len() > 0 {
        let front = value.drop_last();
        lemma_components_parts(front);
        let f = components(front);
        let parts = components(value);
        assert(front.push(value.last()) =~= value);
        if value.last() == '/' {
            assert(front.len() > 0);
            assert(parts.drop_last() =~= f);
            assert(parts.last() =~= Seq::<char>::empty());
        } else if f.len() == 0 {
            assert(front =~= Seq::<char>::empty());
            assert(parts.drop_last() =~= Seq::<Seq<char>>::empty());
            assert(parts.last() =~= value);
        } else {
            assert(parts.drop_last() =~= f.drop_last());
            assert(parts.last() == f.last().push(value.last()));
            assert(internal_path(f) == join_internal(internal_path(f.drop_last()), f.last()));
        }
    }
}

/// Where no two separators stand in a row, no component but the last is empty, and the last is
/// empty only behind a separator.
proof fn lemma_components_filled(value: Seq<char>)
    requires
        value.len() > 0 ==> value[0] != '/',
        forall|i: int| 0 <= i < value.len() - 1 && #[trigger] value[i] == '/' ==> value[i + 1] != '/',
    ensures
        forall|i: int| 0 <= i < components(value).len() - 1 ==> components(value)[i].len() > 0,
        value.len() > 0 && value.last() != '/' ==> components(value).last().len() > 0,
    decreases value.len(),
{
    if value.len() > 0 {
        let front = value.drop_last();
        assert(forall|i: int| 0 <= i < front.len() ==> front[i] == value[i]);
        lemma_components_filled(front);
        lemma_components_parts(front);
        lemma_components_parts(value);
        if value.last() == '/' {
            assert(front.len() > 0);
            assert(value[front.len() - 1] == front.last());
        }
    }
}

/// The components of an internal path are components, and they spell that path.
proof fn lemma_components_valid(value: Seq<char>)
    requires
        is_internal_path(value),
    ensures
        forall|i: int| 0 <= i < components(value).len() ==> is_component(#[trigger] components(value)[i]),
        internal_path(components(value)) == value,
{
    lemma_components_parts(value);
    lemma_components_filled(value);
}

/// Two internal paths with the same components are the same string.
pub proof fn law_components_injective(a: Seq<char>, b: Seq<char>)
    requires
        is_internal_path(a),
        is_internal_path(b),
        components(a) == components(b),
    ensures
        a == b,
{
    lemma_components_valid(a);
    lemma_components_valid(b);
}

/// What follows a separator is split on its own.
proof fn lemma_components_concat(base: Seq<char>, rest: Seq<char>)
    requires
        rest.len() > 0,
        rest[0] != '/',
    ensures
        components(base.push('/') + rest) == components(base) + components(rest),
    decreases rest.len(),
{
    let value = base.push('/') + rest;
    let front = rest.drop_last();
    assert(value.drop_last() =~= base.push('/') + front);
    assert(value.last() == rest.last());
    if front.len() == 0 {
        assert(base.push('/') + front =~= base.push('/'));
        assert(base.push('/').drop_last() =~= base);
        assert(components(base.push('/')) == components(base).push(Seq::empty()));
        assert(components(front).len() == 0);
        assert(Seq::<char>::empty().push(rest.last()) =~= seq![rest.last()]);
        assert(components(value) =~= components(base) + components(rest));
    } else {
        lemma_components_concat(base, front);
        lemma_components_parts(front);
        assert(components(value) =~= components(base) + components(rest));
    }
}

/// A string without a separator is its own only component.
proof fn lemma_components_single(name: Seq<char>)
    requires
        is_component(name),
    ensures
        components(name) == seq![name],
    decreases name.len(),
{
    let front = name.drop_last();
    assert(name.contains(name.last()));
    assert(front.push(name.last()) =~= name);
    if front.len() == 0 {
        assert(components(front).len() == 0);
        assert(name =~= seq![name.last()]);
    } else {
        assert forall|i: int| 0 <= i < front.len() implies front[i] != '/' by {
            assert(name.contains(name[i]));
        }
        lemma_components_single(front);
        assert(components(name) =~= seq![name]);
    }
}

/// Joining a name to a directory adds that name behind the directory's components.
proof fn lemma_components_join(dir: Seq<char>, name: Seq<char>)
    requires
        is_internal_path(dir),
        is_component(name),
    ensures
        is_internal_path(join_internal(dir, name)),
        components(join_internal(dir, name)) == components(dir).push(name),
{
    assert forall|i: int| 0 <= i < name.len() implies name[i] != '/' by {
        assert(name.contains(name[i]));
    }
    lemma_components_single(name);
    if dir.len() > 0 {
        lemma_components_concat(dir, name);
        let value = dir.push('/') + name;
        assert forall|i: int| 0 <= i < value.len() - 1 && #[trigger] value[i] == '/' implies value[i + 1]
            != '/' by {
            if i < dir.len() - 1 {
                assert(dir[i] == '/');
            }
        }
        assert(components(dir) + seq![name] =~= components(dir).push(name));
    } else {
        assert(components(dir) =~= Seq::empty());
        assert(Seq::<Seq<char>>::empty().push(name) =~= seq![name]);
    }
}

/// The path that is spelled from components has those components.
pub proof fn law_internal_path_components(parts: Seq<Seq<char>>)
    requires
        forall|i: int| 0 <= i < parts.len() ==> is_component(#[trigger] parts[i]),
    ensures
        is_internal_path(internal_path(parts)),
        components(internal_path(parts)) == parts,
    decreases parts.len(),
{
    if parts.len() == 0 {
        assert(components(internal_path(parts)) =~= parts);
    } else {
        law_internal_path_components(parts.drop_last());
        lemma_components_join(internal_path(parts.drop_last()), parts.last());
        assert(parts.drop_last().push(parts.last()) =~= parts);
    }
}

/// `base` is the path `value` itself or one of its ancestors, by the internal form.
pub open spec fn is_base_of(base: Seq<char>, value: Seq<char>) -> bool {
    base.len() == 0 || base == value || base.push('/').is_prefix_of(value)
}

/// The internal form of an ancestor, followed by a separator, begins the internal form of the
/// path.
proof fn lemma_internal_path_prefix(parts: Seq<Seq<char>>, n: int)
    requires
        0 < n <= parts.len(),
        forall|i: int| 0 <= i < parts.len() ==> is_component(#[trigger] parts[i]),
    ensures
        is_base_of(internal_path(parts.take(n)), internal_path(parts)),
        internal_path(parts).len() > 0,
    decreases parts.len(),
{
    if n == parts.len() {
        assert(parts.take(n) =~= parts);
        assert(is_component(parts.last()));
    } else {
        let front = parts.drop_last();
        lemma_internal_path_prefix(front, n);
        assert(front.take(n) =~= parts.take(n));
        let base = internal_path(parts.take(n));
        let inner = internal_path(front);
        let value = internal_path(parts);
        assert(value == inner.push('/') + parts.last());
        if base == inner {
            assert(base.push('/').is_prefix_of(value));
        } else if base.push('/').is_prefix_of(inner) {
            assert(base.push('/').is_prefix_of(value));
        }
    }
}

/// One path is the base of another exactly if its components are the other's first ones.
proof fn lemma_base_of_components(base: Seq<char>, value: Seq<char>)
    requires
        is_internal_path(base),
        is_internal_path(value),
    ensures
        is_base_of(base, value) <==> components(base).is_prefix_of(components(value)),
{
    lemma_components_valid(base);
    lemma_components_valid(value);
    let b = components(base);
    let v = components(value);
    lemma_components_parts(base);
    lemma_components_parts(value);
    if base.len() > 0 && base != value && base.push('/').is_prefix_of(value) {
        let rest = value.skip(base.len() as int + 1);
        assert(value =~= base.push('/') + rest);
        assert(base.push('/')[base.len() as int] == '/');
        assert(value[base.len() as int] == '/');
        assert(rest.len() > 0);
        assert(rest[0] == value[base.len() as int + 1]);
        lemma_components_concat(base, rest);
    }
    if b.is_prefix_of(v) && b.len() > 0 {
        assert(v.take(b.len() as int) =~= b);
        lemma_internal_path_prefix(v, b.len() as int);
    }
}

/// `jj_lib::repo_path::InvalidNewRepoPathError`: a string was no internal path.
#[verifier::external_type_specification]
#[verifier::external_body]
pub struct ExInvalidNewRepoPathError(jj_lib::repo_path::InvalidNewRepoPathError);

/// `jj_lib::repo_path::RepoPathBuf::from_internal_string`: accepts the internal paths and no other
/// string, and keeps what it accepts unchanged.
#[verifier::external_body]
fn check_internal_string(value: String) -> (checked: Result<String, InvalidNewRepoPathError>)
    ensures
        checked is Ok <==> is_internal_path(value@),
        checked matches Ok(path) ==> path@ == value@,
{
    jj_lib::repo_path::RepoPathBuf::from_internal_string(value).map(
        |path| path.into_internal_string(),
    )
}

/// `jj_lib::repo_path::RepoPath::components`: the components of an internal path, first to last.
#[verifier::external_body]
fn split_components(value: &str) -> (parts: Vec<String>)
    requires
        is_internal_path(value@),
    ensures
        string_views(parts@) == components(value@),
{
    jj_lib::repo_path::RepoPath::from_internal_string(value).unwrap().components().map(
        |part| part.as_internal_str().to_owned(),
    ).collect()
}

/// `jj_lib::repo_path::RepoPath::starts_with`: whether `base` is the path or one of its ancestors.
#[verifier::external_body]
fn internal_starts_with(value: &str, base: &str) -> (is_base: bool)
    requires
        is_internal_path(value@),
        is_internal_path(base@),
    ensures
        is_base == is_base_of(base@, value@),
{
    let base = jj_lib::repo_path::RepoPath::from_internal_string(base).unwrap();
    jj_lib::repo_path::RepoPath::from_internal_string(value).unwrap().starts_with(base)
}

/// `jj_lib::repo_path::RepoPath::join`: the path of the entry `name` in the directory `dir`.
#[verifier::external_body]
fn internal_join(dir: &str, name: &str) -> (joined: String)
    requires
        is_internal_path(dir@),
        is_component(name@),
    ensures
        joined@ == join_internal(dir@, name@),
{
    let name = jj_lib::repo_path::RepoPathComponent::new(name).unwrap();
    let dir = jj_lib::repo_path::RepoPath::from_internal_string(dir).unwrap();
    dir.join(name).into_internal_string()
}

/// `jj_lib::repo_path::RepoPath::to_internal_dir_string`: the path with a separator behind it, or
/// nothing for the root.
#[verifier::external_body]
fn internal_dir_string(value: &str) -> (dir: String)
    requires
        is_internal_path(value@),
    ensures
        dir@ == join_internal(value@, Seq::empty()),
{
    jj_lib::repo_path::RepoPath::from_internal_string(value).unwrap().to_internal_dir_string()
}

/// The string that was refused as the internal form of a path.
#[derive(Clone, Debug, PartialEq, Eq)]
pub struct InvalidRepoPath {
    pub value: String,
}

/// An owned path inside a repository. Its view is the sequence of its components.
#[derive(Debug, PartialEq, Eq)]
pub struct RepoPathBuf {
    value: String,
}

impl View for RepoPathBuf {
    type V = Seq<Seq<char>>;

    open spec fn view(&self) -> Seq<Seq<char>> {
        components(self.internal())
    }
}

impl Clone for RepoPathBuf {
    fn clone(&self) -> (copy: Self)
        ensures
            copy == *self,
    {
        proof {
            use_type_invariant(self);
        }
        RepoPathBuf { value: self.value.clone() }
    }
}

impl RepoPathBuf {
    /// The internal form of this path.
    pub closed spec fn internal(&self) -> Seq<char> {
        self.value@
    }

    #[verifier::type_invariant]
    spec fn valid(self) -> bool {
        is_internal_path(self.value@)
    }

    /// The path of the repository's root.
    pub fn root() -> (path: Self)
        ensures
            path@ == Seq::<Seq<char>>::empty(),
            path.internal() == Seq::<char>::empty(),
    {
        RepoPathBuf { value: String::new() }
    }

    /// The path with the internal form `value`, if there is one.
    pub fn from_internal_string(value: &str) -> (parsed: Result<Self, InvalidRepoPath>)
        ensures
            parsed is Ok <==> is_internal_path(value@),
            parsed matches Ok(path) ==> path.internal() == value@ && path@ == components(value@),
            parsed matches Err(error) ==> error.value@ == value@,
    {
        match check_internal_string(value.to_owned()) {
            Ok(checked) => Ok(RepoPathBuf { value: checked }),
            Err(_) => Err(InvalidRepoPath { value: value.to_owned() }),
        }
    }

    /// The internal form of this path, as that of a file.
    pub fn as_internal_file_string(&self) -> (value: &str)
        ensures
            value@ == self.internal(),
            value@ == internal_path(self@),
            is_internal_path(value@),
    {
        proof {
            use_type_invariant(self);
            lemma_components_valid(self.value@);
        }
        self.value.as_str()
    }

    /// The internal form of this path, as that of a directory: with a separator at its end, except
    /// for the root.
    pub fn to_internal_dir_string(&self) -> (value: String)
        ensures
            value@ == (if self@.len() == 0 {
                Seq::<char>::empty()
            } else {
                internal_path(self@).push('/')
            }),
    {
        proof {
            use_type_invariant(self);
            lemma_components_valid(self.value@);
            lemma_components_parts(self.value@);
        }
        let value = internal_dir_string(self.value.as_str());
        assert(self.value@.push('/') + Seq::<char>::empty() =~= self.value@.push('/'));
        value
    }

    /// The components of this path, first to last.
    pub fn components(&self) -> (parts: Vec<String>)
        ensures
            string_views(parts@) == self@,
            forall|i: int| 0 <= i < parts@.len() ==> is_component(#[trigger] parts@[i]@),
    {
        proof {
            use_type_invariant(self);
            lemma_components_valid(self.value@);
        }
        let parts = split_components(self.value.as_str());
        assert forall|i: int| 0 <= i < parts@.len() implies is_component(#[trigger] parts@[i]@) by {
            assert(string_views(parts@)[i] == parts@[i]@);
        }
        parts
    }

    /// Whether `base` is this path or one of its ancestors.
    pub fn starts_with(&self, base: &RepoPathBuf) -> (is_base: bool)
        ensures
            is_base == base@.is_prefix_of(self@),
    {
        proof {
            use_type_invariant(self);
            use_type_invariant(base);
            lemma_base_of_components(base.value@, self.value@);
        }
        internal_starts_with(self.value.as_str(), base.value.as_str())
    }

    /// The path of the entry `name` in the directory at this path.
    pub fn join(&self, name: &str) -> (joined: RepoPathBuf)
        requires
            is_component(name@),
        ensures
            joined@ == self@.push(name@),
    {
        proof {
            use_type_invariant(self);
            lemma_components_join(self.value@, name@);
        }
        RepoPathBuf { value: internal_join(self.value.as_str(), name) }
    }
}

/// The path `path` of the repository at `base`, as it is shown to a user in `cwd`, by the rules for
/// paths of the platform that this is built for.
pub uninterp spec fn shown_path(cwd: Seq<char>, base: Seq<char>, path: Seq<char>) -> Seq<char>;

/// The place in the file system of the path `path` of the repository at `base`, by the rules for
/// paths of the platform that this is built for.
pub uninterp spec fn fs_path(base: Seq<char>, path: Seq<char>) -> Seq<char>;

/// `jj_lib::repo_path::RepoPathUiConverter::format_file_path`: a function of the two directories
/// and the path.
#[verifier::external_body]
fn format_shown_path(cwd: &str, base: &str, path: &str) -> (shown: String)
    requires
        is_internal_path(path@),
    ensures
        shown@ == shown_path(cwd@, base@, path@),
{
    let path = jj_lib::repo_path::RepoPath::from_internal_string(path).unwrap();
    let (cwd, base) = (cwd.into(), base.into());
    jj_lib::repo_path::RepoPathUiConverter::Fs { cwd, base }.format_file_path(path)
}

/// `jj_lib::repo_path::RepoPath::to_fs_path_unchecked`, in the form that is displayed: a function of
/// the directory and the path.
#[verifier::external_body]
fn format_fs_path(base: &str, path: &str) -> (shown: String)
    requires
        is_internal_path(path@),
    ensures
        shown@ == fs_path(base@, path@),
{
    let path = jj_lib::repo_path::RepoPath::from_internal_string(path).unwrap();
    path.to_fs_path_unchecked(base.as_ref()).display().to_string()
}

/// Shows paths of the repository at `base` to a user in `cwd`.
#[derive(Clone, Debug)]
pub struct RepoPathUiConverter {
    pub cwd: String,
    pub base: String,
}

impl RepoPathUiConverter {
    /// The path `file` as the user sees it.
    pub fn format_file_path(&self, file: &RepoPathBuf) -> (shown: String)
        ensures
            shown@ == shown_path(self.cwd@, self.base@, file.internal()),
    {
        proof {
            use_type_invariant(file);
        }
        format_shown_path(self.cwd.as_str(), self.base.as_str(), file.value.as_str())
    }

    /// The place of `file` in the file system.
    pub fn format_fs_path(&self, file: &RepoPathBuf) -> (shown: String)
        ensures
            shown@ == fs_path(self.base@, file.internal()),
    {
        proof {
            use_type_invariant(file);
        }
        format_fs_path(self.base.as_str(), file.value.as_str())
    }
}

/// A name is a component exactly if it has characters, of which none is a separator. Behind the
/// components of a path it is spelled after a separator, but for the first.
pub proof fn law_paths_are_spelled(parts: Seq<Seq<char>>, name: Seq<char>)
    ensures
        is_component(name) <==> name.len() > 0 && forall|i: int|
            0 <= i < name.len() ==> #[trigger] name[i] != '/',
        internal_path(Seq::empty()).len() == 0,
        internal_path(parts).len() == 0 ==> internal_path(parts.push(name)) == name,
        internal_path(parts).len() > 0 ==> internal_path(parts.push(name)) == internal_path(parts)
            + seq!['/'] + name,
{
    assert(parts.push(name).drop_last() =~= parts);
    if name.contains('/') {
        let i = choose|i: int| 0 <= i < name.len() && name[i] == '/';
        assert(name[i] == '/');
    }
    if internal_path(parts).len() > 0 {
        assert(internal_path(parts.push(name)) =~= internal_path(parts) + seq!['/'] + name);
    }
}

/// A string is the internal form of a path exactly if it is spelled from components.
pub proof fn law_internal_paths_are_spelled(value: Seq<char>)
    ensures
        is_internal_path(value) <==> exists|parts: Seq<Seq<char>>|
            (forall|i: int| 0 <= i < parts.len() ==> is_component(#[trigger] parts[i]))
                && #[trigger] internal_path(parts) == value,
{
    if is_internal_path(value) {
        lemma_components_valid(value);
    }
    if exists|parts: Seq<Seq<char>>|
        (forall|i: int| 0 <= i < parts.len() ==> is_component(#[trigger] parts[i]))
            && #[trigger] internal_path(parts) == value {
        let parts = choose|parts: Seq<Seq<char>>|
            (forall|i: int| 0 <= i < parts.len() ==> is_component(#[trigger] parts[i]))
                && #[trigger] internal_path(parts) == value;
        law_internal_path_components(parts);
    }
}

/// The strings of a list are seen one by one, in order.
pub proof fn law_string_views_one_by_one(list: Seq<String>)
    ensures
        string_views(list).len() == list.len(),
        forall|i: int| 0 <= i < list.len() ==> #[trigger] string_views(list)[i] == list[i]@,
{
}

} // verus!
