//! Untracked files, with the directories that hold nothing but untracked files shown in place of
//! their contents.
//!
//! Whether a directory is tracked is known to the store alone. [`UntrackedVisitor`] therefore walks
//! down one path at a time and asks: each question names a tracked directory and one of its
//! entries, and the answer says whether that entry is a tracked directory too.

use crate::repo_path::is_component;
use crate::repo_path::string_views;
use crate::repo_path::RepoPathBuf;
use vstd::prelude::*;

verus! {

/// A path that is shown for one or more untracked files.
#[derive(Clone, Debug, PartialEq, Eq)]
pub struct VisitedPath {
    pub path: RepoPathBuf,
    /// Whether the path stands for everything in a directory.
    pub is_dir: bool,
}

/// What a [`VisitedPath`] stands for.
#[verifier::ext_equal]
pub struct Visited {
    pub path: Seq<Seq<char>>,
    pub is_dir: bool,
}

impl View for VisitedPath {
    type V = Visited;

    open spec fn view(&self) -> Visited {
        Visited { path: self.path@, is_dir: self.is_dir }
    }
}

impl Visited {
    /// Whether this stands for the untracked file at `path`.
    pub open spec fn covers(self, path: Seq<Seq<char>>) -> bool {
        if self.is_dir {
            self.path.is_prefix_of(path)
        } else {
            self.path == path
        }
    }
}

/// The components of each of the paths.
pub open spec fn path_views(paths: Seq<RepoPathBuf>) -> Seq<Seq<Seq<char>>> {
    paths.map_values(|path: RepoPathBuf| path@)
}

/// What each of the visited paths stands for.
pub open spec fn visited_views(visits: Seq<VisitedPath>) -> Seq<Visited> {
    visits.map_values(|visit: VisitedPath| visit@)
}

/// Whether every directory above `path`, and `path` itself, is tracked. The root always is.
pub open spec fn all_tracked(dirs: Set<Seq<Seq<char>>>, path: Seq<Seq<char>>) -> bool {
    forall|k: int| 0 < k <= path.len() ==> dirs.contains(#[trigger] path.take(k))
}

/// Whether the first `n` components of `path` name the outermost directory on the way to it that
/// is not tracked.
pub open spec fn is_outermost_untracked(
    dirs: Set<Seq<Seq<char>>>,
    path: Seq<Seq<char>>,
    n: int,
) -> bool {
    &&& 0 < n < path.len()
    &&& !dirs.contains(path.take(n))
    &&& all_tracked(dirs, path.take(n - 1))
}

/// What is shown for the untracked file at `path` alone: the outermost untracked directory on the
/// way to it, or the file where all of those are tracked.
pub open spec fn collapsed(dirs: Set<Seq<Seq<char>>>, path: Seq<Seq<char>>) -> Visited {
    if exists|n: int| is_outermost_untracked(dirs, path, n) {
        let n = choose|n: int| is_outermost_untracked(dirs, path, n);
        Visited { path: path.take(n), is_dir: true }
    } else {
        Visited { path, is_dir: false }
    }
}

/// Whether the last thing that was shown is a directory with `path` in it.
pub open spec fn is_skipped(shown: Seq<Visited>, path: Seq<Seq<char>>) -> bool {
    shown.len() > 0 && shown.last().is_dir && shown.last().path.is_prefix_of(path)
}

/// What is shown for the untracked files at `paths`, one after the other.
pub open spec fn collapsed_all(
    dirs: Set<Seq<Seq<char>>>,
    paths: Seq<Seq<Seq<char>>>,
) -> Seq<Visited>
    decreases paths.len(),
{
    if paths.len() == 0 {
        Seq::empty()
    } else {
        let shown = collapsed_all(dirs, paths.drop_last());
        if is_skipped(shown, paths.last()) {
            shown
        } else {
            shown.push(collapsed(dirs, paths.last()))
        }
    }
}

/// There is one outermost untracked directory at most.
proof fn lemma_outermost_unique(dirs: Set<Seq<Seq<char>>>, path: Seq<Seq<char>>, m: int, n: int)
    requires
        is_outermost_untracked(dirs, path, m),
        is_outermost_untracked(dirs, path, n),
    ensures
        m == n,
{
    if m < n {
        assert(path.take(n - 1).take(m) =~= path.take(m));
    } else if n < m {
        assert(path.take(m - 1).take(n) =~= path.take(n));
    }
}

/// What is shown where the first `n` components name the outermost untracked directory.
proof fn lemma_collapsed_dir(dirs: Set<Seq<Seq<char>>>, path: Seq<Seq<char>>, n: int)
    requires
        is_outermost_untracked(dirs, path, n),
    ensures
        collapsed(dirs, path) == (Visited { path: path.take(n), is_dir: true }),
{
    let m = choose|m: int| is_outermost_untracked(dirs, path, m);
    lemma_outermost_unique(dirs, path, m, n);
}

/// What is shown where every directory above the file is tracked.
proof fn lemma_collapsed_file(dirs: Set<Seq<Seq<char>>>, path: Seq<Seq<char>>)
    requires
        path.len() > 0 ==> all_tracked(dirs, path.drop_last()),
    ensures
        collapsed(dirs, path) == (Visited { path, is_dir: false }),
{
    if exists|n: int| is_outermost_untracked(dirs, path, n) {
        let n = choose|n: int| is_outermost_untracked(dirs, path, n);
        assert(path.drop_last().take(n) =~= path.take(n));
    }
}

/// Where a walk to `path` leaves the tracked directories on the way to `top`: they agree on `depth`
/// components, `path` goes on to another directory, and `top` does not go there.
pub open spec fn is_walk_start(top: Seq<Seq<char>>, path: Seq<Seq<char>>, depth: int) -> bool {
    &&& 0 <= depth < path.len() - 1
    &&& depth <= top.len()
    &&& top.take(depth) == path.take(depth)
    &&& depth < top.len() ==> top[depth] != path[depth]
}

/// Whether every directory above `path` lies on the way to `top`, or is `top`.
pub open spec fn is_parent_known(top: Seq<Seq<char>>, path: Seq<Seq<char>>) -> bool {
    path.len() > 0 ==> path.drop_last().is_prefix_of(top)
}

/// Whether `stack` holds the directories on the way to its last one, from the root on.
spec fn is_dir_stack(stack: Seq<RepoPathBuf>) -> bool {
    &&& stack.len() > 0
    &&& stack.last()@.len() == stack.len() - 1
    &&& forall|k: int| 0 <= k < stack.len() ==> (#[trigger] stack[k])@ == stack.last()@.take(k)
}

/// Visits untracked files one after the other.
pub struct UntrackedVisitor {
    stack: Vec<RepoPathBuf>,
    skip_prefixed_by_dir: Option<RepoPathBuf>,
}

/// A visit that waits for an answer: is a certain entry of a certain tracked directory on the way
/// to the file a tracked directory too?
pub struct PendingVisit {
    stack: Vec<RepoPathBuf>,
    path: RepoPathBuf,
    parts: Vec<String>,
}

/// Where a visit of an untracked file has got to.
pub enum Step {
    /// The visit waits for an answer.
    Ask(PendingVisit),
    /// The visit is over, and this is shown for it.
    Show(UntrackedVisitor, VisitedPath),
    /// The visit is over; the directory that was shown last stands for this file too.
    Skip(UntrackedVisitor),
}

impl UntrackedVisitor {
    /// The deepest directory that is known to be tracked, with all those above it.
    pub closed spec fn top(&self) -> Seq<Seq<char>> {
        self.stack@.last()@
    }

    /// The untracked directory that was shown last, if nothing was shown after it.
    pub closed spec fn skip_dir(&self) -> Option<Seq<Seq<char>>> {
        match self.skip_prefixed_by_dir {
            Some(dir) => Some(dir@),
            None => None,
        }
    }

    #[verifier::type_invariant]
    spec fn valid(self) -> bool {
        is_dir_stack(self.stack@)
    }

    /// A visitor that has seen nothing but the root.
    pub fn new() -> (visitor: Self)
        ensures
            visitor.top() == Seq::<Seq<char>>::empty(),
            visitor.skip_dir() is None,
    {
        let mut stack: Vec<RepoPathBuf> = Vec::new();
        stack.push(RepoPathBuf::root());
        assert(stack@[0]@ =~= stack@.last()@.take(0));
        UntrackedVisitor { stack, skip_prefixed_by_dir: None }
    }

    /// Begins to visit the untracked file at `path`.
    pub fn start(self, path: RepoPathBuf) -> (step: Step)
        ensures
            ({
                let skipped = self.skip_dir() matches Some(dir) && dir.is_prefix_of(path@);
                match step {
                    Step::Skip(next) => {
                        &&& skipped
                        &&& next.top() == self.top()
                        &&& next.skip_dir() == self.skip_dir()
                    },
                    Step::Show(next, visit) => {
                        &&& !skipped
                        &&& is_parent_known(self.top(), path@)
                        &&& visit == (VisitedPath { path, is_dir: false })
                        &&& next.top() == self.top()
                        &&& next.skip_dir() is None
                    },
                    Step::Ask(pending) => {
                        &&& !skipped
                        &&& !is_parent_known(self.top(), path@)
                        &&& pending.target() == path
                        &&& is_walk_start(self.top(), path@, pending.depth() as int)
                    },
                }
            }),
    {
        proof {
            use_type_invariant(&self);
        }
        if let Some(dir) = &self.skip_prefixed_by_dir {
            if path.starts_with(dir) {
                return Step::Skip(self);
            }
        }
        let mut stack = self.stack;
        let ghost top = stack@.last()@;
        let parts = path.components();
        match first_mismatch(&stack, &parts) {
            None => {
                proof {
                    assert(path@.len() > 0 ==> path@.drop_last() =~= top.take(path@.len() - 1));
                }
                let visitor = UntrackedVisitor { stack, skip_prefixed_by_dir: None };
                Step::Show(visitor, VisitedPath { path, is_dir: false })
            },
            Some(depth) => {
                proof {
                    if path@.drop_last().is_prefix_of(top) {
                        assert(path@.drop_last()[depth as int] == top[depth as int]);
                    }
                    lemma_truncated_stack(stack@, depth as int);
                    assert(parts.len() == path@.len());
                }
                stack.truncate(depth + 1);
                Step::Ask(PendingVisit { stack, path, parts })
            },
        }
    }
}

/// The directories above a directory on the stack are a stack on their own.
proof fn lemma_truncated_stack(stack: Seq<RepoPathBuf>, depth: int)
    requires
        is_dir_stack(stack),
        0 <= depth < stack.len(),
    ensures
        is_dir_stack(stack.take(depth + 1)),
        stack.take(depth + 1).last()@ == stack.last()@.take(depth),
{
    let cut = stack.take(depth + 1);
    assert(cut.last() == stack[depth]);
    assert forall|k: int| 0 <= k < cut.len() implies (#[trigger] cut[k])@ == cut.last()@.take(k) by {
        assert(cut[k] == stack[k]);
        assert(stack.last()@.take(depth).take(k) =~= stack.last()@.take(k));
    }
}

/// The depth at which a walk to the file with components `parts` leaves the directories of
/// `stack`, if it does.
fn first_mismatch(stack: &Vec<RepoPathBuf>, parts: &Vec<String>) -> (mismatch: Option<usize>)
    requires
        is_dir_stack(stack@),
    ensures
        ({
            let top = stack@.last()@;
            let path = string_views(parts@);
            match mismatch {
                Some(depth) => is_walk_start(top, path, depth as int),
                None => path.len() > 0 ==> path.len() - 1 <= top.len() && top.take(path.len() - 1)
                    == path.take(path.len() - 1),
            }
        }),
{
    let ghost top = stack@.last()@;
    let ghost path = string_views(parts@);
    if parts.len() == 0 {
        return None;
    }
    let mut i: usize = 0;
    assert(top.take(0) =~= path.take(0));
    while i < parts.len() - 1
        invariant
            is_dir_stack(stack@),
            top == stack@.last()@,
            path == string_views(parts@),
            i < parts.len(),
            i <= top.len(),
            top.take(i as int) == path.take(i as int),
        decreases parts.len() - i,
    {
        assert(path[i as int] == parts@[i as int]@);
        if i + 1 >= stack.len() {
            return Some(i);
        }
        assert(stack@[i + 1]@ == top.take(i + 1));
        assert(top.take(i + 1).last() == top[i as int]);
        if !is_last_component(&stack[i + 1], &parts[i]) {
            return Some(i);
        }
        assert(top.take(i + 1) =~= top.take(i as int).push(top[i as int]));
        assert(path.take(i + 1) =~= path.take(i as int).push(path[i as int]));
        i = i + 1;
    }
    None
}

/// Whether `name` is the last component of `dir`.
fn is_last_component(dir: &RepoPathBuf, name: &String) -> (is_last: bool)
    requires
        dir@.len() > 0,
    ensures
        is_last == (dir@.last() == name@),
{
    let parts = dir.components();
    assert(string_views(parts@).last() == parts@.last()@);
    parts[parts.len() - 1] == *name
}

impl PendingVisit {
    /// The file that is visited.
    pub closed spec fn target(&self) -> RepoPathBuf {
        self.path
    }

    /// The number of components of the directory that is asked about.
    pub closed spec fn depth(&self) -> nat {
        (self.stack@.len() - 1) as nat
    }

    #[verifier::type_invariant]
    spec fn valid(self) -> bool {
        &&& is_dir_stack(self.stack@)
        &&& string_views(self.parts@) == self.path@
        &&& forall|i: int| 0 <= i < self.parts@.len() ==> is_component(#[trigger] self.parts@[i]@)
        &&& self.stack@.len() < self.path@.len()
        &&& self.stack@.last()@ == self.path@.take(self.stack@.len() - 1)
    }

    /// The directory that is asked about, by the number of its components.
    pub fn directory_depth(&self) -> (depth: usize)
        ensures
            depth == self.depth(),
            depth + 1 < self.target()@.len() <= usize::MAX,
    {
        proof {
            use_type_invariant(self);
        }
        assert(self.parts.len() == self.path@.len());
        self.stack.len() - 1
    }

    /// The entry that is asked about.
    pub fn component(&self) -> (name: &str)
        ensures
            name@ == self.target()@[self.depth() as int],
    {
        proof {
            use_type_invariant(self);
        }
        let i: usize = self.stack.len() - 1;
        assert(string_views(self.parts@)[i as int] == self.parts@[i as int]@);
        self.parts[i].as_str()
    }

    /// Goes on with the visit: `is_tracked_dir` says whether the entry that was asked about is a
    /// tracked directory.
    pub fn answer(self, is_tracked_dir: bool) -> (step: Step)
        ensures
            ({
                let path = self.target()@;
                let depth = self.depth() as int;
                match step {
                    Step::Skip(_) => false,
                    Step::Show(next, visit) => if is_tracked_dir {
                        &&& depth + 2 == path.len()
                        &&& visit == (VisitedPath { path: self.target(), is_dir: false })
                        &&& next.top() == path.take(depth + 1)
                        &&& next.skip_dir() is None
                    } else {
                        &&& visit@ == (Visited { path: path.take(depth + 1), is_dir: true })
                        &&& next.top() == path.take(depth)
                        &&& next.skip_dir() == Some(path.take(depth + 1))
                    },
                    Step::Ask(pending) => {
                        &&& is_tracked_dir
                        &&& depth + 2 < path.len()
                        &&& pending.target() == self.target()
                        &&& pending.depth() == depth + 1
                    },
                }
            }),
    {
        proof {
            use_type_invariant(&self);
        }
        let mut stack = self.stack;
        let parts = self.parts;
        let path = self.path;
        let i: usize = stack.len() - 1;
        let ghost top = stack@.last()@;
        assert(string_views(parts@)[i as int] == parts@[i as int]@);
        assert(parts@.len() == path@.len());
        proof {
            assert(path@.take(i + 1) =~= path@.take(i as int).push(path@[i as int]));
        }
        let dir = stack[i].join(parts[i].as_str());
        if is_tracked_dir {
            proof {
                assert(dir@.drop_last() =~= stack@.last()@);
                lemma_pushed_stack(stack@, dir);
            }
            stack.push(dir);
            if i + 1 < parts.len() - 1 {
                Step::Ask(PendingVisit { stack, path, parts })
            } else {
                let visitor = UntrackedVisitor { stack, skip_prefixed_by_dir: None };
                Step::Show(visitor, VisitedPath { path, is_dir: false })
            }
        } else {
            let visit = VisitedPath { path: dir.clone(), is_dir: true };
            Step::Show(UntrackedVisitor { stack, skip_prefixed_by_dir: Some(dir) }, visit)
        }
    }
}

/// A directory in the last directory of a stack can be put on it.
proof fn lemma_pushed_stack(stack: Seq<RepoPathBuf>, dir: RepoPathBuf)
    requires
        is_dir_stack(stack),
        dir@.len() == stack.len(),
        dir@.drop_last() == stack.last()@,
    ensures
        is_dir_stack(stack.push(dir)),
{
    let pushed = stack.push(dir);
    assert forall|k: int| 0 <= k < pushed.len() implies (#[trigger] pushed[k])@ == pushed.last()@.take(
        k,
    ) by {
        if k < stack.len() {
            assert(pushed[k] == stack[k]);
            assert(dir@.drop_last().take(k) =~= dir@.take(k));
        } else {
            assert(dir@.take(k) =~= dir@);
        }
    }
}

/// The directories at `paths`.
pub open spec fn dir_set(paths: Seq<RepoPathBuf>) -> Set<Seq<Seq<char>>> {
    Set::new(|dir: Seq<Seq<char>>| path_views(paths).contains(dir))
}

/// Whether the first `len` components of `path` name one of `tracked_dirs`.
fn is_tracked_entry(tracked_dirs: &Vec<RepoPathBuf>, path: &RepoPathBuf, len: usize) -> (found: bool)
    requires
        len <= path@.len(),
    ensures
        found == dir_set(tracked_dirs@).contains(path@.take(len as int)),
{
    let mut i: usize = 0;
    while i < tracked_dirs.len()
        invariant
            len <= path@.len(),
            forall|k: int| 0 <= k < i ==> (#[trigger] tracked_dirs@[k])@ != path@.take(len as int),
        decreases tracked_dirs.len() - i,
    {
        let dir = &tracked_dirs[i];
        let dir_len: usize = dir.components().len();
        assert(path_views(tracked_dirs@)[i as int] == tracked_dirs@[i as int]@);
        if dir_len == len && path.starts_with(dir) {
            assert(dir@ =~= path@.take(len as int));
            return true;
        }
        assert(dir@ == path@.take(len as int) ==> dir@.is_prefix_of(path@));
        i = i + 1;
    }
    assert forall|k: int| 0 <= k < path_views(tracked_dirs@).len() implies path_views(
        tracked_dirs@,
    )[k] != path@.take(len as int) by {
        assert(path_views(tracked_dirs@)[k] == tracked_dirs@[k]@);
    }
    false
}

/// The directory that was shown last, if nothing was shown after it.
pub open spec fn last_dir(shown: Seq<Visited>) -> Option<Seq<Seq<char>>> {
    if shown.len() > 0 && shown.last().is_dir {
        Some(shown.last().path)
    } else {
        None
    }
}

/// Visits the untracked file at `path` to the end.
fn visit_one(
    visitor: UntrackedVisitor,
    path: &RepoPathBuf,
    tracked_dirs: &Vec<RepoPathBuf>,
) -> (visited: (UntrackedVisitor, Option<VisitedPath>))
    requires
        all_tracked(dir_set(tracked_dirs@), visitor.top()),
    ensures
        ({
            let dirs = dir_set(tracked_dirs@);
            let skipped = visitor.skip_dir() matches Some(dir) && dir.is_prefix_of(path@);
            let (next, visit) = visited;
            &&& all_tracked(dirs, next.top())
            &&& match visit {
                Some(visit) => {
                    &&& !skipped
                    &&& visit@ == collapsed(dirs, path@)
                    &&& next.skip_dir() == last_dir(seq![visit@])
                },
                None => skipped && next.skip_dir() == visitor.skip_dir(),
            }
        }),
{
    let ghost dirs = dir_set(tracked_dirs@);
    let ghost top = visitor.top();
    let mut pending = match visitor.start(path.clone()) {
        Step::Skip(next) => {
            return (next, None);
        },
        Step::Show(next, visit) => {
            proof {
                if path@.len() > 0 {
                    lemma_all_tracked_prefix(dirs, top, path@.drop_last());
                }
                lemma_collapsed_file(dirs, path@);
            }
            return (next, Some(visit));
        },
        Step::Ask(pending) => pending,
    };
    proof {
        lemma_all_tracked_prefix(dirs, top, top.take(pending.depth() as int));
    }
    loop
        invariant
            dirs == dir_set(tracked_dirs@),
            !(visitor.skip_dir() matches Some(dir) && dir.is_prefix_of(path@)),
            pending.target() == *path,
            pending.depth() + 1 < path@.len(),
            all_tracked(dirs, path@.take(pending.depth() as int)),
        decreases path@.len() - pending.depth(),
    {
        let ghost depth = pending.depth() as int;
        let len: usize = pending.directory_depth() + 1;
        let found = is_tracked_entry(tracked_dirs, path, len);
        match pending.answer(found) {
            Step::Skip(next) => {
                return (next, None);
            },
            Step::Show(next, visit) => {
                proof {
                    if found {
                        lemma_all_tracked_entry(dirs, path@, depth);
                        assert(path@.take(depth + 1) =~= path@.drop_last());
                        lemma_collapsed_file(dirs, path@);
                    } else {
                        lemma_collapsed_dir(dirs, path@, depth + 1);
                    }
                }
                return (next, Some(visit));
            },
            Step::Ask(next) => {
                proof {
                    lemma_all_tracked_entry(dirs, path@, depth);
                }
                pending = next;
            },
        }
    }
}

/// Where a directory and those above it are tracked, so is each of those with those above it.
proof fn lemma_all_tracked_prefix(
    dirs: Set<Seq<Seq<char>>>,
    path: Seq<Seq<char>>,
    prefix: Seq<Seq<char>>,
)
    requires
        all_tracked(dirs, path),
        prefix.is_prefix_of(path),
    ensures
        all_tracked(dirs, prefix),
{
    assert forall|k: int| 0 < k <= prefix.len() implies dirs.contains(#[trigger] prefix.take(k)) by {
        assert(prefix.take(k) =~= path.take(k));
    }
}

/// A tracked entry of a tracked directory is tracked with all those above it.
proof fn lemma_all_tracked_entry(dirs: Set<Seq<Seq<char>>>, path: Seq<Seq<char>>, depth: int)
    requires
        0 <= depth < path.len(),
        all_tracked(dirs, path.take(depth)),
        dirs.contains(path.take(depth + 1)),
    ensures
        all_tracked(dirs, path.take(depth + 1)),
{
    let dir = path.take(depth + 1);
    assert forall|k: int| 0 < k <= dir.len() implies dirs.contains(#[trigger] dir.take(k)) by {
        if k <= depth {
            assert(path.take(depth).take(k) =~= dir.take(k));
        } else {
            assert(dir.take(k) =~= dir);
        }
    }
}

/// Visits the untracked files at `untracked_paths` in turn, where `tracked_dirs` are the tracked
/// directories besides the root.
pub fn visit_collapsed_untracked_files(
    untracked_paths: &Vec<RepoPathBuf>,
    tracked_dirs: &Vec<RepoPathBuf>,
) -> (visits: Vec<VisitedPath>)
    ensures
        visited_views(visits@) == collapsed_all(
            dir_set(tracked_dirs@),
            path_views(untracked_paths@),
        ),
{
    let ghost dirs = dir_set(tracked_dirs@);
    let ghost paths = path_views(untracked_paths@);
    let mut visits: Vec<VisitedPath> = Vec::new();
    let mut visitor = UntrackedVisitor::new();
    let mut i: usize = 0;
    assert(visited_views(visits@) =~= collapsed_all(dirs, paths.take(0)));
    while i < untracked_paths.len()
        invariant
            i <= untracked_paths.len(),
            dirs == dir_set(tracked_dirs@),
            paths == path_views(untracked_paths@),
            visited_views(visits@) == collapsed_all(dirs, paths.take(i as int)),
            all_tracked(dirs, visitor.top()),
            visitor.skip_dir() == last_dir(visited_views(visits@)),
        decreases untracked_paths.len() - i,
    {
        let ghost shown = visited_views(visits@);
        proof {
            assert(paths[i as int] == untracked_paths@[i as int]@);
            assert(paths.take(i + 1).drop_last() =~= paths.take(i as int));
            assert(paths.take(i + 1).last() == paths[i as int]);
        }
        let (next, visit) = visit_one(visitor, &untracked_paths[i], tracked_dirs);
        visitor = next;
        if let Some(visit) = visit {
            visits.push(visit);
            assert(visited_views(visits@) =~= shown.push(visit@));
        }
        i = i + 1;
    }
    assert(paths.take(i as int) =~= paths);
    visits
}

/// What is shown for a file alone is the outermost untracked directory on the way to it, or, where
/// there is none, the file.
pub proof fn law_collapsed_is_outermost(dirs: Set<Seq<Seq<char>>>, path: Seq<Seq<char>>)
    ensures
        ({
            let shown = collapsed(dirs, path);
            &&& shown.covers(path)
            &&& shown.is_dir ==> {
                &&& 0 < shown.path.len() < path.len()
                &&& !dirs.contains(shown.path)
                &&& all_tracked(dirs, shown.path.drop_last())
            }
            &&& !shown.is_dir && path.len() > 0 ==> all_tracked(dirs, path.drop_last())
        }),
{
    if exists|n: int| is_outermost_untracked(dirs, path, n) {
        let n = choose|n: int| is_outermost_untracked(dirs, path, n);
        assert(path.take(n).drop_last() =~= path.take(n - 1));
    } else if path.len() > 0 {
        let parent = path.drop_last();
        lemma_tracked_from(dirs, path, parent.len() as int);
        assert(path.take(parent.len() as int) =~= parent);
    }
}

/// Without an untracked directory on the way to a path, the directories above it are tracked.
proof fn lemma_tracked_from(dirs: Set<Seq<Seq<char>>>, path: Seq<Seq<char>>, n: int)
    requires
        0 <= n < path.len(),
        forall|k: int| !is_outermost_untracked(dirs, path, k),
    ensures
        all_tracked(dirs, path.take(n)),
    decreases n,
{
    if n > 0 {
        lemma_tracked_from(dirs, path, n - 1);
        assert(!is_outermost_untracked(dirs, path, n));
        lemma_all_tracked_entry(dirs, path, n - 1);
    }
}

/// Every untracked file is shown, by itself or by a directory that it is in.
pub proof fn law_every_file_is_covered(
    dirs: Set<Seq<Seq<char>>>,
    paths: Seq<Seq<Seq<char>>>,
    i: int,
)
    requires
        0 <= i < paths.len(),
    ensures
        exists|j: int|
            0 <= j < collapsed_all(dirs, paths).len() && #[trigger] collapsed_all(dirs, paths)[j].covers(
                paths[i],
            ),
    decreases paths.len(),
{
    let shown = collapsed_all(dirs, paths.drop_last());
    let all = collapsed_all(dirs, paths);
    if i < paths.len() - 1 {
        law_every_file_is_covered(dirs, paths.drop_last(), i);
        let j = choose|j: int| 0 <= j < shown.len() && #[trigger] shown[j].covers(paths[i]);
        assert(all[j] == shown[j]);
    } else {
        law_collapsed_is_outermost(dirs, paths.last());
        assert(all[all.len() - 1].covers(paths[i]));
    }
}

/// Whether the file at `paths[a]` is the one that `shown[j]` was shown for.
spec fn is_source(
    dirs: Set<Seq<Seq<char>>>,
    paths: Seq<Seq<Seq<char>>>,
    j: int,
    a: int,
) -> bool {
    let until = collapsed_all(dirs, paths.take(a + 1));
    &&& 0 <= a < paths.len()
    &&& until.len() == j + 1
    &&& until.last() == collapsed(dirs, paths[a])
    &&& until.last() == collapsed_all(dirs, paths)[j]
}

/// Each thing that is shown was shown for a file.
proof fn lemma_source(dirs: Set<Seq<Seq<char>>>, paths: Seq<Seq<Seq<char>>>, j: int) -> (a: int)
    requires
        0 <= j < collapsed_all(dirs, paths).len(),
    ensures
        is_source(dirs, paths, j, a),
    decreases paths.len(),
{
    let front = paths.drop_last();
    let shown = collapsed_all(dirs, front);
    if j < shown.len() {
        let a = lemma_source(dirs, front, j);
        assert(front.take(a + 1) =~= paths.take(a + 1));
        a
    } else {
        assert(paths.take(paths.len() as int) =~= paths);
        paths.len() - 1
    }
}

/// Nothing is shown but what stands for one of the untracked files.
pub proof fn law_shown_for_a_file(dirs: Set<Seq<Seq<char>>>, paths: Seq<Seq<Seq<char>>>, j: int)
    requires
        0 <= j < collapsed_all(dirs, paths).len(),
    ensures
        exists|i: int|
            0 <= i < paths.len() && collapsed_all(dirs, paths)[j] == collapsed(
                dirs,
                #[trigger] paths[i],
            ),
{
    let a = lemma_source(dirs, paths, j);
    assert(collapsed_all(dirs, paths)[j] == collapsed(dirs, paths[a]));
}

/// The directories with one of `files` in them, at any depth.
pub open spec fn dirs_of_files(files: Set<Seq<Seq<char>>>) -> Set<Seq<Seq<char>>> {
    Set::new(
        |dir: Seq<Seq<char>>|
            exists|file: Seq<Seq<char>>|
                files.contains(file) && dir.len() < file.len() && #[trigger] dir.is_prefix_of(file),
    )
}

/// Where the tracked directories are those with a tracked file in them, a directory that is shown
/// has no tracked file in it, while the directory that it stands in has one, or is the root.
pub proof fn law_shown_dirs_are_untracked(
    files: Set<Seq<Seq<char>>>,
    paths: Seq<Seq<Seq<char>>>,
    j: int,
)
    requires
        0 <= j < collapsed_all(dirs_of_files(files), paths).len(),
        collapsed_all(dirs_of_files(files), paths)[j].is_dir,
    ensures
        ({
            let dir = collapsed_all(dirs_of_files(files), paths)[j].path;
            &&& dir.len() > 0
            &&& forall|file: Seq<Seq<char>>|
                files.contains(file) && dir.len() < file.len() ==> !(#[trigger] dir.is_prefix_of(file))
            &&& dir.len() > 1 ==> dirs_of_files(files).contains(dir.drop_last())
        }),
{
    let dirs = dirs_of_files(files);
    let a = lemma_source(dirs, paths, j);
    law_collapsed_is_outermost(dirs, paths[a]);
    let dir = collapsed_all(dirs, paths)[j].path;
    if dir.len() > 1 {
        let parent = dir.drop_last();
        assert(parent.take(parent.len() as int) =~= parent);
    }
}

/// The order of names: by the first character that differs, a name before those that go on.
pub open spec fn name_less(a: Seq<char>, b: Seq<char>) -> bool {
    exists|k: int| #[trigger] name_less_at(a, b, k)
}

/// Whether the first `k` characters of two names are the same and the next decides their order.
pub open spec fn name_less_at(a: Seq<char>, b: Seq<char>, k: int) -> bool {
    &&& 0 <= k <= a.len()
    &&& k < b.len()
    &&& forall|i: int| 0 <= i < k ==> a[i] == b[i]
    &&& k < a.len() ==> (a[k] as int) < (b[k] as int)
}

/// The order of paths: by the first component that differs, a path before those inside it.
pub open spec fn path_less(a: Seq<Seq<char>>, b: Seq<Seq<char>>) -> bool {
    exists|k: int| #[trigger] path_less_at(a, b, k)
}

/// Whether the first `k` components of two paths are the same and the next decides their order.
pub open spec fn path_less_at(a: Seq<Seq<char>>, b: Seq<Seq<char>>, k: int) -> bool {
    &&& 0 <= k <= a.len()
    &&& k < b.len()
    &&& forall|i: int| 0 <= i < k ==> a[i] == b[i]
    &&& k < a.len() ==> name_less(a[k], b[k])
}

/// Whether each path comes before all that follow it.
pub open spec fn is_ascending(paths: Seq<Seq<Seq<char>>>) -> bool {
    forall|i: int, j: int| 0 <= i < j < paths.len() ==> path_less(#[trigger] paths[i], #[trigger] paths[j])
}

/// Of two names, one at most comes before the other.
proof fn lemma_name_less_asymmetric(a: Seq<char>, b: Seq<char>)
    ensures
        !(name_less(a, b) && name_less(b, a)),
{
    if name_less(a, b) && name_less(b, a) {
        let k = choose|k: int| #[trigger] name_less_at(a, b, k);
        let j = choose|j: int| #[trigger] name_less_at(b, a, j);
        if k < j {
            assert(b[k] == a[k]);
        } else if j < k {
            assert(a[j] == b[j]);
        }
    }
}

/// No path comes before itself.
pub proof fn law_no_path_before_itself(a: Seq<Seq<char>>)
    ensures
        !path_less(a, a),
{
    if path_less(a, a) {
        let k = choose|k: int| #[trigger] path_less_at(a, a, k);
        lemma_name_less_asymmetric(a[k], a[k]);
    }
}

/// A path between two paths in a directory is in that directory.
proof fn lemma_between_in_dir(
    dir: Seq<Seq<char>>,
    a: Seq<Seq<char>>,
    c: Seq<Seq<char>>,
    b: Seq<Seq<char>>,
)
    requires
        dir.is_prefix_of(a),
        dir.is_prefix_of(b),
        path_less(a, c),
        path_less(c, b),
    ensures
        dir.is_prefix_of(c),
{
    let k = choose|k: int| #[trigger] path_less_at(a, c, k);
    let j = choose|j: int| #[trigger] path_less_at(c, b, j);
    let n = dir.len() as int;
    assert(forall|i: int| 0 <= i < n ==> dir[i] == a[i] && dir[i] == b[i]);
    if k >= n {
        assert(dir =~= c.take(n));
    } else if j >= n {
        assert(dir =~= c.take(n));
    } else {
        assert(name_less(dir[k], c[k]));
        lemma_name_less_asymmetric(dir[k], dir[k]);
        lemma_name_less_asymmetric(dir[j], dir[j]);
        lemma_name_less_asymmetric(dir[k], c[k]);
        if k < j {
            assert(c[k] == b[k]);
        } else if j < k {
            assert(a[j] == c[j]);
        }
    }
}

/// Files in the directory that was shown last add nothing.
proof fn lemma_all_skipped(
    dirs: Set<Seq<Seq<char>>>,
    paths: Seq<Seq<Seq<char>>>,
    from: int,
    until: int,
)
    requires
        0 <= from <= until <= paths.len(),
        forall|c: int| from <= c < until ==> is_skipped(
            collapsed_all(dirs, paths.take(from)),
            #[trigger] paths[c],
        ),
    ensures
        collapsed_all(dirs, paths.take(until)) == collapsed_all(dirs, paths.take(from)),
    decreases until - from,
{
    if from < until {
        lemma_all_skipped(dirs, paths, from, until - 1);
        assert(paths.take(until).drop_last() =~= paths.take(until - 1));
        assert(paths.take(until).last() == paths[until - 1]);
    }
}

/// Of untracked files in ascending order nothing is shown twice, and nothing that is in a
/// directory that was shown.
pub proof fn law_ascending_shown_once(
    dirs: Set<Seq<Seq<char>>>,
    paths: Seq<Seq<Seq<char>>>,
    i: int,
    j: int,
)
    requires
        is_ascending(paths),
        0 <= i < j < collapsed_all(dirs, paths).len(),
    ensures
        ({
            let shown = collapsed_all(dirs, paths);
            &&& shown[i] != shown[j]
            &&& shown[i].is_dir ==> !shown[i].path.is_prefix_of(shown[j].path)
        }),
{
    let shown = collapsed_all(dirs, paths);
    let a = lemma_source(dirs, paths, i);
    let b = lemma_source(dirs, paths, j);
    law_collapsed_is_outermost(dirs, paths[a]);
    law_collapsed_is_outermost(dirs, paths[b]);
    if b <= a {
        lemma_shown_grows(dirs, paths, b + 1, a + 1);
    }
    if shown[i].is_dir {
        let dir = shown[i].path;
        if dir.is_prefix_of(shown[j].path) {
            let until = collapsed_all(dirs, paths.take(a + 1));
            assert forall|c: int| a + 1 <= c < b + 1 implies is_skipped(until, #[trigger] paths[c]) by {
                if c < b {
                    lemma_between_in_dir(dir, paths[a], paths[c], paths[b]);
                }
            }
            lemma_all_skipped(dirs, paths, a + 1, b + 1);
        }
    } else {
        law_no_path_before_itself(paths[a]);
    }
}

/// What was shown stays shown.
proof fn lemma_shown_grows(
    dirs: Set<Seq<Seq<char>>>,
    paths: Seq<Seq<Seq<char>>>,
    from: int,
    until: int,
)
    requires
        0 <= from <= until <= paths.len(),
    ensures
        collapsed_all(dirs, paths.take(from)).len() <= collapsed_all(dirs, paths.take(until)).len(),
    decreases until - from,
{
    if from < until {
        lemma_shown_grows(dirs, paths, from, until - 1);
        assert(paths.take(until).drop_last() =~= paths.take(until - 1));
    }
}

/// A directory is one of those that are listed exactly if all its components are those of one of them,
/// in order.
pub proof fn law_listed_dirs(dirs: Seq<RepoPathBuf>, path: Seq<Seq<char>>)
    ensures
        dir_set(dirs).contains(path) <==> exists|i: int|
            0 <= i < dirs.len() && (#[trigger] dirs[i])@ == path,
{
    if dir_set(dirs).contains(path) {
        let i = choose|i: int| 0 <= i < path_views(dirs).len() && path_views(dirs)[i] == path;
        assert(dirs[i]@ == path);
    }
    if exists|i: int| 0 <= i < dirs.len() && (#[trigger] dirs[i])@ == path {
        let i = choose|i: int| 0 <= i < dirs.len() && (#[trigger] dirs[i])@ == path;
        assert(path_views(dirs)[i] == path);
    }
}

/// The paths and what was visited are seen one by one, in order.
pub proof fn law_views_one_by_one(paths: Seq<RepoPathBuf>, visits: Seq<VisitedPath>)
    ensures
        path_views(paths).len() == paths.len(),
        forall|i: int| 0 <= i < paths.len() ==> #[trigger] path_views(paths)[i] == paths[i]@,
        visited_views(visits).len() == visits.len(),
        forall|i: int|
            0 <= i < visits.len() ==> (#[trigger] visited_views(visits)[i]).path == visits[i].path@
                && visited_views(visits)[i].is_dir == visits[i].is_dir,
{
}

/// A directory stands for the files whose first components are its own, and a file for itself alone.
pub proof fn law_covered_files(visit: Visited, path: Seq<Seq<char>>)
    ensures
        visit.is_dir ==> (visit.covers(path) <==> visit.path.len() <= path.len() && (forall|i: int|
            0 <= i < visit.path.len() ==> visit.path[i] == path[i])),
        !visit.is_dir ==> (visit.covers(path) <==> visit.path == path),
{
    if visit.is_dir && visit.path.len() <= path.len() && (forall|i: int|
        0 <= i < visit.path.len() ==> visit.path[i] == path[i]) {
        assert(visit.path =~= path.subrange(0, visit.path.len() as int));
    }
    if visit.is_dir && visit.covers(path) {
        assert(forall|i: int|
            0 <= i < visit.path.len() ==> visit.path[i] == path.subrange(
                0,
                visit.path.len() as int,
            )[i]);
    }
}

/// The root is tracked with all above it; any other directory is if it is tracked itself and the
/// directory that it is in is, with all above that.
pub proof fn law_tracked_with_all_above(dirs: Set<Seq<Seq<char>>>, path: Seq<Seq<char>>)
    ensures
        path.len() == 0 ==> all_tracked(dirs, path),
        path.len() > 0 ==> (all_tracked(dirs, path) <==> dirs.contains(path) && all_tracked(
            dirs,
            path.drop_last(),
        )),
{
    if path.len() > 0 {
        let n = path.len() as int;
        assert(path.take(n) =~= path);
        assert forall|k: int| 0 < k < n implies path.drop_last().take(k) == #[trigger] path.take(k) by {
            assert(path.drop_last().take(k) =~= path.take(k));
        }
        if dirs.contains(path) && all_tracked(dirs, path.drop_last()) {
            assert forall|k: int| 0 < k <= n implies dirs.contains(#[trigger] path.take(k)) by {
                if k < n {
                    assert(dirs.contains(path.drop_last().take(k)));
                }
            }
        }
        if all_tracked(dirs, path) {
            assert(dirs.contains(path.take(n)));
            assert forall|k: int| 0 < k <= n - 1 implies dirs.contains(
                #[trigger] path.drop_last().take(k),
            ) by {
                assert(dirs.contains(path.take(k)));
            }
        }
    }
}

/// One more file adds nothing if the last thing that was shown is a directory that it is in. Otherwise
/// it adds what is shown for it alone, behind what was shown before.
pub proof fn law_one_more_file(
    dirs: Set<Seq<Seq<char>>>,
    paths: Seq<Seq<Seq<char>>>,
    path: Seq<Seq<char>>,
)
    ensures
        collapsed_all(dirs, Seq::empty()) == Seq::<Visited>::empty(),
        ({
            let before = collapsed_all(dirs, paths);
            let after = collapsed_all(dirs, paths.push(path));
            if before.len() > 0 && before.last().is_dir && before.last().path.is_prefix_of(path) {
                after == before
            } else {
                after == before.push(collapsed(dirs, path))
            }
        }),
{
    assert(paths.push(path).drop_last() =~= paths);
}

/// What is shown was shown for one of the files. A directory is on the way to that file, is not one
/// of the tracked directories, and those above it all are. A file is shown only if the directories
/// above it are all tracked.
pub proof fn law_shown_by_tracked_dirs(
    untracked_paths: Seq<RepoPathBuf>,
    tracked_dirs: Seq<RepoPathBuf>,
    visits: Seq<VisitedPath>,
    j: int,
)
    requires
        visited_views(visits) == collapsed_all(dir_set(tracked_dirs), path_views(untracked_paths)),
        0 <= j < visits.len(),
    ensures
        forall|k: int|
            0 < k < visits[j].path@.len() ==> exists|d: int|
                0 <= d < tracked_dirs.len() && (#[trigger] tracked_dirs[d])@
                    == #[trigger] visits[j].path@.take(k),
        visits[j].is_dir ==> {
            &&& visits[j].path@.len() > 0
            &&& forall|d: int|
                0 <= d < tracked_dirs.len() ==> (#[trigger] tracked_dirs[d])@ != visits[j].path@
            &&& exists|i: int|
                0 <= i < untracked_paths.len() && visits[j].path@.len() < (
                #[trigger] untracked_paths[i])@.len() && visits[j].path@.is_prefix_of(
                    untracked_paths[i]@,
                )
        },
        !visits[j].is_dir ==> exists|i: int|
            0 <= i < untracked_paths.len() && (#[trigger] untracked_paths[i])@ == visits[j].path@,
{
    let dirs = dir_set(tracked_dirs);
    let paths = path_views(untracked_paths);
    let path = visits[j].path@;
    assert(visited_views(visits)[j] == visits[j]@);
    law_shown_for_a_file(dirs, paths, j);
    let i = choose|i: int|
        0 <= i < paths.len() && collapsed_all(dirs, paths)[j] == collapsed(dirs, #[trigger] paths[i]);
    assert(paths[i] == untracked_paths[i]@);
    law_collapsed_is_outermost(dirs, paths[i]);
    assert forall|k: int| 0 < k < path.len() implies exists|d: int|
        0 <= d < tracked_dirs.len() && (#[trigger] tracked_dirs[d])@ == #[trigger] path.take(k) by {
        assert(path.drop_last().take(k) =~= path.take(k));
        assert(dirs.contains(path.drop_last().take(k)));
        law_listed_dirs(tracked_dirs, path.take(k));
    }
    law_listed_dirs(tracked_dirs, path);
}

/// Where a walk leaves the tracked directories that are known: they agree with the path up to there,
/// and no further.
pub proof fn law_walk_starts_at_first_difference(
    top: Seq<Seq<char>>,
    path: Seq<Seq<char>>,
    depth: int,
)
    ensures
        is_walk_start(top, path, depth) <==> {
            &&& 0 <= depth < path.len() - 1
            &&& depth <= top.len()
            &&& forall|i: int| 0 <= i < depth ==> top[i] == path[i]
            &&& depth < top.len() ==> top[depth] != path[depth]
        },
{
    if 0 <= depth < path.len() - 1 && depth <= top.len() {
        if forall|i: int| 0 <= i < depth ==> top[i] == path[i] {
            assert(top.take(depth) =~= path.take(depth));
        }
        if top.take(depth) == path.take(depth) {
            assert forall|i: int| 0 <= i < depth implies top[i] == path[i] by {
                assert(top.take(depth)[i] == path.take(depth)[i]);
            }
        }
    }
}

/// Every directory above a path is known exactly if they are on the way to the deepest one that is.
pub proof fn law_known_parents(top: Seq<Seq<char>>, path: Seq<Seq<char>>)
    ensures
        is_parent_known(top, path) <==> path.len() <= top.len() + 1 && (forall|i: int|
            0 <= i < path.len() - 1 ==> top[i] == #[trigger] path[i]),
{
    if path.len() > 0 {
        let parent = path.drop_last();
        if is_parent_known(top, path) {
            assert forall|i: int| 0 <= i < path.len() - 1 implies top[i] == #[trigger] path[i] by {
                assert(parent[i] == top.subrange(0, parent.len() as int)[i]);
            }
        }
        if path.len() <= top.len() + 1 && (forall|i: int|
            0 <= i < path.len() - 1 ==> top[i] == #[trigger] path[i]) {
            assert forall|i: int| 0 <= i < parent.len() implies parent[i] == top[i] by {
                assert(path[i] == top[i]);
            }
            assert(parent =~= top.subrange(0, parent.len() as int));
        }
    }
}

} // verus!
