//! Merged values: what a path, a reference or a tree holds that was merged from several sides.
//!
//! A term is absent, or it is a value that is known by a number.

use jj_lib::merge::Merge;
use vstd::prelude::*;

verus! {

/// `jj_lib::merge::Merge`: terms that were merged, positive and negative ones in turn.
#[verifier::external_type_specification]
#[verifier::external_body]
#[verifier::reject_recursive_types(T)]
pub struct ExMerge<T>(jj_lib::merge::Merge<T>);

/// The terms of a merge, in order.
pub uninterp spec fn merge_terms(merge: Merge<Option<u64>>) -> Seq<Option<u64>>;

/// Whether a merge has come to one term.
pub open spec fn is_merge_resolved(merge: Merge<Option<u64>>) -> bool {
    merge_terms(merge).len() == 1
}

/// Whether there is anything in a merge: it has not come to nothing.
pub open spec fn is_merge_present(merge: Merge<Option<u64>>) -> bool {
    !(is_merge_resolved(merge) && merge_terms(merge)[0] is None)
}

/// The number of sides that were merged: each but the first adds a negative and a positive term.
pub open spec fn merge_sides(merge: Merge<Option<u64>>) -> nat {
    (merge_terms(merge).len() + 1) as nat / 2
}

/// `Clone` of `jj_lib::merge::Merge`: the same terms.
#[verifier::external_body]
pub(crate) fn clone_merge(merge: &Merge<Option<u64>>) -> (copy: Merge<Option<u64>>)
    ensures
        merge_terms(copy) == merge_terms(*merge),
{
    merge.clone()
}

/// `jj_lib::merge::Merge::is_resolved`: whether there is one term.
#[verifier::external_body]
pub(crate) fn is_resolved(merge: &Merge<Option<u64>>) -> (resolved: bool)
    ensures
        resolved == (merge_terms(*merge).len() == 1),
{
    merge.is_resolved()
}

/// `jj_lib::merge::Merge::is_present`: whether the merge is anything but one absent term.
#[verifier::external_body]
pub(crate) fn is_present(merge: &Merge<Option<u64>>) -> (present: bool)
    ensures
        present == !(merge_terms(*merge).len() == 1 && merge_terms(*merge)[0] is None),
{
    merge.is_present()
}

/// `jj_lib::merge::Merge::num_sides`: the number of positive terms, of which there is one more than
/// negative ones.
#[verifier::external_body]
pub(crate) fn num_sides(merge: &Merge<Option<u64>>) -> (sides: usize)
    ensures
        2 * sides == merge_terms(*merge).len() + 1,
{
    merge.num_sides()
}

/// What is asked of a merge is told by its terms: it is resolved if there is one, there is nothing in
/// it if that one is absent, and each side but the first adds two terms.
pub proof fn law_terms_tell_merge(merge: Merge<Option<u64>>)
    ensures
        is_merge_resolved(merge) <==> merge_terms(merge).len() == 1,
        is_merge_present(merge) <==> merge_terms(merge) != seq![None::<u64>],
        merge_terms(merge).len() % 2 == 1 ==> 2 * merge_sides(merge) == merge_terms(merge).len() + 1,
{
    if merge_terms(merge).len() == 1 && merge_terms(merge)[0] is None {
        assert(merge_terms(merge) =~= seq![None::<u64>]);
    }
    assert(seq![None::<u64>][0] is None);
}

} // verus!
