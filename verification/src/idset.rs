//! Insertion-ordered sets of commit ids, backed by `indexmap::IndexSet`.
//!
//! The caller layer collects the target commits of one command in such a
//! set: it holds each selected id once, in the order of first insertion,
//! and the commands read the ids out in that order.

use vstd::prelude::*;
use crate::commit::CommitId;

verus! {

#[verifier::external_type_specification]
#[verifier::external_body]
#[verifier::reject_recursive_types(T)]
#[verifier::reject_recursive_types(S)]
pub struct ExIndexSet<T, S>(indexmap::IndexSet<T, S>);

/// The elements an id set holds, in insertion order. `indexmap::IndexSet`
/// keeps each element once and preserves the order of first insertion.
pub uninterp spec fn id_set_elems(
    s: &indexmap::IndexSet<CommitId, std::collections::hash_map::RandomState>,
) -> Seq<CommitId>;

/// Relies on indexmap's `IndexSet::iter`: yields the elements in insertion
/// order, each exactly once; the body only copies each element out.
#[verifier::external_body]
pub(crate) fn id_set_ids(
    s: &indexmap::IndexSet<CommitId, std::collections::hash_map::RandomState>,
) -> (r: Vec<CommitId>)
    ensures
        r@ == id_set_elems(s),
{
    s.iter().copied().collect()
}

} // verus!
