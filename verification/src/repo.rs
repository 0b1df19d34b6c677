//! The mutable working view of the commit graph: the append-only store plus
//! a visibility flag for each stored commit. Rewriting a commit hides the
//! old version and shows the new one; hidden commits stay in the store as
//! inert, unreferenced objects.

use vstd::prelude::*;
use crate::commit::Commit;
use crate::commit::CommitData;
use crate::commit::CommitId;
use crate::store::Store;
use crate::store::clone_store;
use crate::store::parents_below;

verus! {

pub struct MutableRepo {
    pub store: Store,
    pub visible: Vec<bool>,
}

impl MutableRepo {
    pub open spec fn wf(self) -> bool {
        &&& self.store.wf()
        &&& self.visible@.len() == self.store@.len()
    }

    pub fn new() -> (r: MutableRepo)
        ensures
            r.wf(),
            r.store@ == Seq::<CommitData>::empty(),
            r.visible@ == Seq::<bool>::empty(),
    {
        let r = MutableRepo { store: Store::new(), visible: Vec::new() };
        proof {
            assert(r.visible@ =~= Seq::<bool>::empty());
        }
        r
    }

    pub fn num_commits(&self) -> (r: usize)
        ensures
            r == self.store@.len(),
    {
        self.store.len()
    }

    pub fn read_commit(&self, id: CommitId) -> (r: &Commit)
        requires
            id < self.store@.len(),
        ensures
            r@ == self.store@[id as int],
    {
        self.store.read_commit(id)
    }

    pub fn is_visible(&self, id: CommitId) -> (r: bool)
        requires
            self.wf(),
            id < self.store@.len(),
        ensures
            r == self.visible@[id as int],
    {
        self.visible[id]
    }

    /// Persist a content, as the store does; a freshly appended commit
    /// starts hidden until a caller shows it.
    pub fn write_commit(&mut self, c: Commit) -> (id: CommitId)
        requires
            old(self).wf(),
            parents_below(c@, old(self).store@.len() as int),
        ensures
            final(self).wf(),
            id < final(self).store@.len(),
            final(self).store@[id as int] == c@,
            old(self).store@.len() <= final(self).store@.len(),
            forall|i: int|
                0 <= i < old(self).store@.len() ==> final(self).store@[i] == old(self).store@[i],
            forall|i: int|
                0 <= i < old(self).visible@.len()
                    ==> final(self).visible@[i] == old(self).visible@[i],
            (exists|i: int| 0 <= i < old(self).store@.len() && old(self).store@[i] == c@) ==> {
                &&& final(self).store@ == old(self).store@
                &&& final(self).visible@ == old(self).visible@
                &&& id < old(self).store@.len()
            },
            !(exists|i: int| 0 <= i < old(self).store@.len() && old(self).store@[i] == c@) ==> {
                &&& id == old(self).store@.len()
                &&& final(self).store@ == old(self).store@.push(c@)
                &&& final(self).visible@ == old(self).visible@.push(false)
            },
    {
        let n = self.store.len();
        let id = self.store.write_commit(c);
        if id == n {
            self.visible.push(false);
        }
        proof {
            if exists|i: int| 0 <= i < old(self).store@.len() && old(self).store@[i] == c@ {
                assert(id < old(self).store@.len());
            } else {
                assert(self.visible@ =~= old(self).visible@.push(false));
            }
        }
        id
    }

    pub fn set_visible(&mut self, id: CommitId, v: bool)
        requires
            old(self).wf(),
            id < old(self).store@.len(),
        ensures
            final(self).wf(),
            final(self).store == old(self).store,
            final(self).visible@ == old(self).visible@.update(id as int, v),
    {
        self.visible.set(id, v);
    }
}

/// Failure of an operation on the repository.
#[derive(Clone, Copy, Debug, PartialEq, Eq, Structural)]
pub enum RepoError {
    /// Finishing a transaction raced with another writer: the operation log
    /// moved past the transaction's base. Recoverable by recomputing the
    /// transaction from the new head.
    ConcurrentModification,
    /// A target commit is marked non-rewritable by repository policy; it
    /// must be rejected before the engine runs.
    ImmutableCommit(CommitId),
}

/// One entry of the append-only operation log: a published view of the
/// graph under a human-readable description.
pub struct Operation {
    pub description: String,
    pub visible: Vec<bool>,
}

/// The durable repository: the shared append-only store and the operation
/// log whose head is the view every reader observes.
pub struct Repo {
    pub store: Store,
    pub ops: Vec<Operation>,
}

/// A staging area for one logical operation: a private working copy of the
/// graph, bound to the log position it started from. It is either finished
/// — published atomically — or dropped without any observable effect.
pub struct Transaction {
    pub base_op: usize,
    pub repo: MutableRepo,
}

impl Transaction {
    pub open spec fn wf(self) -> bool {
        self.repo.wf()
    }

    /// The working graph, for the engine to mutate.
    pub fn repo_mut(&mut self) -> (r: &mut MutableRepo)
        ensures
            *r == old(self).repo,
            *final(self) == (Transaction { base_op: old(self).base_op, repo: *final(r) }),
    {
        &mut self.repo
    }
}

impl Repo {
    pub open spec fn wf(self) -> bool {
        &&& self.store.wf()
        &&& self.ops@.len() >= 1
        &&& self.head_visible().len() == self.store@.len()
    }

    /// The view the log's head publishes.
    pub open spec fn head_visible(self) -> Seq<bool> {
        self.ops@.last().visible@
    }

    /// A fresh repository: an empty store under one initial, empty
    /// operation.
    pub fn init() -> (r: Repo)
        ensures
            r.wf(),
            r.store@ == Seq::<CommitData>::empty(),
            r.ops@.len() == 1,
            r.head_visible() == Seq::<bool>::empty(),
    {
        let mut ops: Vec<Operation> = Vec::new();
        ops.push(Operation { description: String::new(), visible: Vec::new() });
        let r = Repo { store: Store::new(), ops };
        proof {
            assert(r.head_visible() =~= Seq::<bool>::empty());
        }
        r
    }

    /// Open a transaction on the current head: a private copy of the graph,
    /// remembering the log position it came from.
    pub fn start_transaction(&self) -> (tx: Transaction)
        requires
            self.wf(),
        ensures
            tx.wf(),
            tx.base_op as int == self.ops@.len() - 1,
            tx.repo.store@ == self.store@,
            tx.repo.visible@ == self.head_visible(),
    {
        let visible = clone_bools(&self.ops[self.ops.len() - 1].visible);
        Transaction {
            base_op: self.ops.len() - 1,
            repo: MutableRepo { store: clone_store(&self.store), visible },
        }
    }

    /// Publish a transaction: append one operation carrying its view, so
    /// that readers observe either the previous head or the new one, never
    /// a mix. Fails, changing nothing, iff the log moved past the
    /// transaction's base — another writer finished first.
    pub fn finish_transaction(&mut self, tx: Transaction, description: String) -> (r: Result<
        (),
        RepoError,
    >)
        requires
            old(self).wf(),
            tx.wf(),
            tx.base_op as int + 1 == old(self).ops@.len() ==> {
                &&& tx.repo.store@.len() >= old(self).store@.len()
                &&& forall|i: int|
                    0 <= i < old(self).store@.len() ==> tx.repo.store@[i] == old(self).store@[i]
            },
        ensures
            final(self).wf(),
            r is Err <==> tx.base_op as int + 1 != old(self).ops@.len(),
            r is Err ==> *final(self) == *old(self) && r == Result::<(), RepoError>::Err(
                RepoError::ConcurrentModification,
            ),
            r is Ok ==> {
                &&& final(self).store@ == tx.repo.store@
                &&& final(self).ops@.len() == old(self).ops@.len() + 1
                &&& forall|i: int|
                    0 <= i < old(self).ops@.len() ==> final(self).ops@[i] == old(self).ops@[i]
                &&& final(self).ops@.last().description@ == description@
                &&& final(self).head_visible() == tx.repo.visible@
            },
    {
        if tx.base_op != self.ops.len() - 1 {
            return Result::Err(RepoError::ConcurrentModification);
        }
        self.store = tx.repo.store;
        self.ops.push(Operation { description, visible: tx.repo.visible });
        Result::Ok(())
    }
}

/// Reject any target the repository policy marks non-rewritable; the
/// engine itself assumes every target is rewritable and does not re-check.
/// Fails with the first immutable target, in target order.
pub fn check_rewritable(targets: &Vec<CommitId>, immutable: &Vec<CommitId>) -> (r: Result<
    (),
    RepoError,
>)
    ensures
        r is Ok <==> forall|j: int| 0 <= j < targets@.len() ==> !immutable@.contains(targets@[j]),
        r matches Err(e) ==> {
            &&& exists|j: int|
                {
                    &&& 0 <= j < targets@.len()
                    &&& immutable@.contains(targets@[j])
                    &&& e == RepoError::ImmutableCommit(targets@[j])
                    &&& forall|j2: int| 0 <= j2 < j ==> !immutable@.contains(targets@[j2])
                }
        },
{
    let mut j: usize = 0;
    while j < targets.len()
        invariant
            0 <= j <= targets@.len(),
            forall|j2: int| 0 <= j2 < j ==> !immutable@.contains(targets@[j2]),
        decreases targets@.len() - j,
    {
        if crate::rewrite::contains_id(immutable, targets[j]) {
            return Result::Err(RepoError::ImmutableCommit(targets[j]));
        }
        j += 1;
    }
    Result::Ok(())
}

/// A copy of a list of flags with the same value.
pub fn clone_bools(v: &Vec<bool>) -> (r: Vec<bool>)
    ensures
        r@ == v@,
{
    let mut r: Vec<bool> = Vec::new();
    let mut i: usize = 0;
    while i < v.len()
        invariant
            0 <= i <= v@.len(),
            r@ == v@.take(i as int),
        decreases v@.len() - i,
    {
        r.push(v[i]);
        proof {
            assert(r@ =~= v@.take(i + 1 as int));
        }
        i += 1;
    }
    proof {
        assert(v@.take(v@.len() as int) =~= v@);
    }
    r
}

} // verus!
