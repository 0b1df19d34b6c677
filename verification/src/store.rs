//! The content-addressed, append-only commit store.
//!
//! A commit's id is the index of its content in the store. Writing looks the
//! content up first and returns the existing id when an equal content is
//! already stored, so no two distinct ids hold the same content: an id
//! determines the content and the content determines the id, which is the
//! essence of content addressing. Every parent of a stored commit is stored
//! at a smaller index, so the graph is a DAG by construction.

use vstd::prelude::*;
use crate::commit::Commit;
use crate::commit::CommitData;
use crate::commit::CommitId;
use crate::commit::clone_commit;
use crate::commit::commit_eq;

verus! {

/// All parents of the commit lie strictly below the given index.
pub open spec fn parents_below(c: CommitData, i: int) -> bool {
    forall|k: int| 0 <= k < c.parents.len() ==> (c.parents[k] as int) < i
}

pub struct Store {
    pub commits: Vec<Commit>,
}

impl View for Store {
    type V = Seq<CommitData>;

    open spec fn view(&self) -> Seq<CommitData> {
        self.commits@.map(|i: int, c: Commit| c@)
    }
}

impl Store {
    /// Well-formedness: parents precede their children, and contents are
    /// never duplicated.
    pub open spec fn wf(self) -> bool {
        &&& forall|i: int| 0 <= i < self@.len() ==> parents_below(#[trigger] self@[i], i)
        &&& forall|i: int, j: int|
            0 <= i < self@.len() && 0 <= j < self@.len() && i != j ==> self@[i] != self@[j]
    }

    pub fn new() -> (r: Store)
        ensures
            r@ == Seq::<CommitData>::empty(),
            r.wf(),
    {
        let r = Store { commits: Vec::new() };
        proof {
            assert(r@ =~= Seq::<CommitData>::empty());
        }
        r
    }

    pub fn len(&self) -> (r: usize)
        ensures
            r == self@.len(),
    {
        self.commits.len()
    }

    /// Read access by id.
    pub fn read_commit(&self, id: CommitId) -> (r: &Commit)
        requires
            id < self@.len(),
        ensures
            r@ == self@[id as int],
    {
        &self.commits[id]
    }

    /// Persist a fully specified content and return its id. An equal content
    /// that is already stored keeps its id and the store is unchanged;
    /// otherwise the content is appended. Writing is thus idempotent: equal
    /// contents always receive equal ids.
    pub fn write_commit(&mut self, c: Commit) -> (id: CommitId)
        requires
            old(self).wf(),
            parents_below(c@, old(self)@.len() as int),
        ensures
            final(self).wf(),
            id < final(self)@.len(),
            final(self)@[id as int] == c@,
            old(self)@.len() <= final(self)@.len(),
            forall|i: int| 0 <= i < old(self)@.len() ==> final(self)@[i] == old(self)@[i],
            (exists|i: int| 0 <= i < old(self)@.len() && old(self)@[i] == c@) ==> {
                &&& final(self)@ == old(self)@
                &&& old(self)@[id as int] == c@
            },
            !(exists|i: int| 0 <= i < old(self)@.len() && old(self)@[i] == c@) ==> {
                &&& id == old(self)@.len()
                &&& final(self)@ == old(self)@.push(c@)
            },
    {
        let n = self.commits.len();
        let mut i: usize = 0;
        while i < n
            invariant
                *self == *old(self),
                old(self).wf(),
                n == self@.len(),
                0 <= i <= n,
                forall|j: int| 0 <= j < i ==> self@[j] != c@,
            decreases n - i,
        {
            if commit_eq(&self.commits[i], &c) {
                proof {
                    assert(old(self)@[i as int] == c@);
                }
                return i;
            }
            i += 1;
        }
        self.commits.push(c);
        proof {
            assert(self@ =~= old(self)@.push(c@));
        }
        n
    }
}

/// In a well-formed store an id determines the content and the content
/// determines the id: two stored commits are equal exactly when their ids
/// are.
pub proof fn lemma_store_injective(s: Store, i: int, j: int)
    requires
        s.wf(),
        0 <= i < s@.len(),
        0 <= j < s@.len(),
    ensures
        (s@[i] == s@[j]) <==> (i == j),
{
}

/// A copy of a store with the same contents.
pub fn clone_store(s: &Store) -> (r: Store)
    ensures
        r@ == s@,
{
    let mut commits: Vec<Commit> = Vec::new();
    let mut i: usize = 0;
    while i < s.commits.len()
        invariant
            0 <= i <= s.commits@.len(),
            commits@.len() == i,
            forall|j: int| 0 <= j < i ==> commits@[j]@ == s@[j],
        decreases s.commits@.len() - i,
    {
        commits.push(clone_commit(&s.commits[i]));
        i += 1;
    }
    let r = Store { commits };
    proof {
        assert(r@ =~= s@);
    }
    r
}

} // verus!
