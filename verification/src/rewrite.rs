//! The descendant transform engine.
//!
//! Given a set of target commit ids and a per-commit rewrite policy, the
//! engine walks the sub-DAG of the targets and their visible descendants in
//! topological order (ids ascend from parents to children, so ascending id
//! order is topological), applies the policy to each commit, remaps parent
//! references through the rewrite map, and records each commit's outcome
//! before any of its children are processed — which is what makes every
//! parent lookup resolvable.

use vstd::prelude::*;
use crate::commit::Commit;
use crate::commit::CommitData;
use crate::commit::CommitId;
use crate::commit::SignBehavior;
use crate::commit::clone_commit;
use crate::builder::CommitBuilder;
use crate::repo::MutableRepo;
use crate::signing::SignError;
use crate::signing::SigningBackend;
use crate::signing::key_view;
use crate::store::parents_below;

verus! {

/// The fate a rewrite policy chooses for one commit.
pub enum RewriteAction {
    /// Leave the commit as it is; descendants see no rewrite.
    NoOp,
    /// Remove the commit; its children are reparented onto its remapped
    /// parents.
    Abandon,
    /// Produce a new commit with remapped parents and the given signing
    /// instruction.
    Rewrite { sign_behavior: SignBehavior, sign_key: Option<String> },
}

/// What one processed commit was rewritten into.
pub enum RewriteOutcome {
    /// The commit stands unchanged.
    Unchanged,
    /// One replacement commit.
    Rewritten(CommitId),
    /// Several replacements of the same logical change, kept side by side.
    Diverged(Vec<CommitId>),
    /// No replacement; children skip to these (already remapped) parents.
    Abandoned(Vec<CommitId>),
}

/// Write-once map from each processed old commit id to its outcome, indexed
/// by old id; `None` for ids outside the processed closure.
pub struct RewriteMap {
    pub entries: Vec<Option<RewriteOutcome>>,
}

/// A per-commit rewrite policy, the pluggable strategy a caller hands the
/// engine. `action_spec` names the chosen action so that the engine's
/// contract can speak of it.
pub trait RewritePolicy: Sized {
    spec fn action_spec(&self, id: CommitId, c: CommitData) -> RewriteAction;

    fn action(&self, id: CommitId, c: &Commit) -> (a: RewriteAction)
        ensures
            a == self.action_spec(id, c@),
    ;
}

/// The ids a processed commit `id` contributes wherever it is referenced as
/// a parent.
pub open spec fn outcome_ids(o: RewriteOutcome, id: CommitId) -> Seq<CommitId> {
    match o {
        RewriteOutcome::Unchanged => seq![id],
        RewriteOutcome::Rewritten(q) => seq![q],
        RewriteOutcome::Diverged(v) => v@,
        RewriteOutcome::Abandoned(v) => v@,
    }
}

/// What a parent reference to `p` becomes: processed commits contribute
/// their outcome's ids, unprocessed ones stay themselves.
pub open spec fn replacement(m: Seq<Option<RewriteOutcome>>, p: CommitId) -> Seq<CommitId> {
    if p < m.len() && m[p as int] is Some {
        outcome_ids(m[p as int]->0, p)
    } else {
        seq![p]
    }
}

/// A parent list with every reference remapped through the rewrite map and
/// the results flattened in order.
pub open spec fn remapped(m: Seq<Option<RewriteOutcome>>, parents: Seq<CommitId>) -> Seq<CommitId>
    decreases parents.len(),
{
    if parents.len() == 0 {
        Seq::<CommitId>::empty()
    } else {
        remapped(m, parents.drop_last()) + replacement(m, parents.last())
    }
}

/// Remapping reads the map only at the parents themselves.
pub proof fn lemma_remapped_frame(
    m1: Seq<Option<RewriteOutcome>>,
    m2: Seq<Option<RewriteOutcome>>,
    parents: Seq<CommitId>,
)
    requires
        m1.len() == m2.len(),
        forall|k: int| 0 <= k < parents.len() ==> replacement(m1, parents[k]) == replacement(m2, parents[k]),
    ensures
        remapped(m1, parents) == remapped(m2, parents),
    decreases parents.len(),
{
    if parents.len() > 0 {
        lemma_remapped_frame(m1, m2, parents.drop_last());
        assert(parents.last() == parents[parents.len() - 1]);
    }
}

/// Every id of an outcome lies below the bound.
pub open spec fn outcome_below(o: RewriteOutcome, id: CommitId, bound: int) -> bool {
    forall|j: int| 0 <= j < outcome_ids(o, id).len() ==> (outcome_ids(o, id)[j] as int) < bound
}

/// Remapped parents stay below any bound that covers the original parents
/// and every recorded outcome.
pub proof fn lemma_remapped_below(
    m: Seq<Option<RewriteOutcome>>,
    parents: Seq<CommitId>,
    bound: int,
)
    requires
        forall|k: int| 0 <= k < parents.len() ==> (parents[k] as int) < bound,
        forall|p: int|
            0 <= p < m.len() && m[p] is Some ==> outcome_below(m[p]->0, p as CommitId, bound),
    ensures
        forall|j: int| 0 <= j < remapped(m, parents).len() ==> (remapped(m, parents)[j] as int) < bound,
    decreases parents.len(),
{
    if parents.len() > 0 {
        lemma_remapped_below(m, parents.drop_last(), bound);
        assert(parents.last() == parents[parents.len() - 1]);
        let p = parents.last();
        assert forall|j: int| 0 <= j < replacement(m, p).len() implies (replacement(m, p)[j] as int)
            < bound by {
            if p < m.len() && m[p as int] is Some {
                assert(outcome_below(m[p as int]->0, p, bound));
            }
        }
        let front = remapped(m, parents.drop_last());
        let rep = replacement(m, p);
        assert forall|j: int| 0 <= j < remapped(m, parents).len() implies (remapped(m, parents)[j]
            as int) < bound by {
            assert(remapped(m, parents) == front + rep);
            if j < front.len() {
                assert(remapped(m, parents)[j] == front[j]);
            } else {
                assert(remapped(m, parents)[j] == rep[j - front.len()]);
            }
        }
    }
}

/// Exact membership in a list of ids.
pub fn contains_id(v: &Vec<CommitId>, x: CommitId) -> (r: bool)
    ensures
        r == v@.contains(x),
{
    let mut i: usize = 0;
    while i < v.len()
        invariant
            0 <= i <= v@.len(),
            forall|j: int| 0 <= j < i ==> v@[j] != x,
        decreases v@.len() - i,
    {
        if v[i] == x {
            return true;
        }
        i += 1;
    }
    false
}

/// The remapped parent list of one commit, as executable code.
pub fn remap_parents(m: &RewriteMap, parents: &Vec<CommitId>) -> (r: Vec<CommitId>)
    ensures
        r@ == remapped(m.entries@, parents@),
{
    let mut r: Vec<CommitId> = Vec::new();
    let mut i: usize = 0;
    proof {
        assert(parents@.take(0) =~= Seq::<CommitId>::empty());
    }
    while i < parents.len()
        invariant
            0 <= i <= parents@.len(),
            r@ == remapped(m.entries@, parents@.take(i as int)),
        decreases parents@.len() - i,
    {
        let p = parents[i];
        let ghost r_pre = r@;
        if p < m.entries.len() {
            match &m.entries[p] {
                Option::Some(o) => match o {
                    RewriteOutcome::Unchanged => {
                        r.push(p);
                    },
                    RewriteOutcome::Rewritten(q) => {
                        r.push(*q);
                    },
                    RewriteOutcome::Diverged(v) => {
                        append_ids(&mut r, v);
                    },
                    RewriteOutcome::Abandoned(v) => {
                        append_ids(&mut r, v);
                    },
                },
                Option::None => {
                    r.push(p);
                },
            }
        } else {
            r.push(p);
        }
        proof {
            assert(r@ =~= r_pre + replacement(m.entries@, p));
            assert(parents@.take(i + 1).drop_last() =~= parents@.take(i as int));
            assert(parents@.take(i + 1).last() == p);
        }
        i += 1;
    }
    proof {
        assert(parents@.take(parents@.len() as int) =~= parents@);
    }
    r
}

/// Append a copy of every id of `v` to `r`.
fn append_ids(r: &mut Vec<CommitId>, v: &Vec<CommitId>)
    ensures
        final(r)@ == old(r)@ + v@,
{
    let mut i: usize = 0;
    proof {
        assert(old(r)@ + v@.take(0) =~= old(r)@);
    }
    while i < v.len()
        invariant
            0 <= i <= v@.len(),
            r@ == old(r)@ + v@.take(i as int),
        decreases v@.len() - i,
    {
        r.push(v[i]);
        proof {
            assert(old(r)@ + v@.take(i + 1) =~= (old(r)@ + v@.take(i as int)).push(v@[i as int]));
        }
        i += 1;
    }
    proof {
        assert(old(r)@ + v@.take(v@.len() as int) =~= old(r)@ + v@);
    }
}

/// The processed closure: a commit belongs to it iff it is a target, or it
/// is visible and has a parent in it — that is, the targets together with
/// their visible descendants.
pub open spec fn closure_ok(
    cl: Seq<bool>,
    store: Seq<CommitData>,
    visible: Seq<bool>,
    targets: Seq<CommitId>,
) -> bool {
    &&& cl.len() == store.len()
    &&& forall|c: int|
        0 <= c < cl.len() ==> #[trigger] cl[c] == (targets.contains(c as CommitId) || (visible[c]
            && exists|k: int|
            0 <= k < store[c].parents.len() && (store[c].parents[k] as int) < cl.len()
                && cl[store[c].parents[k] as int]))
}

/// With no targets the closure is empty.
pub proof fn lemma_closure_empty(
    cl: Seq<bool>,
    store: Seq<CommitData>,
    visible: Seq<bool>,
    targets: Seq<CommitId>,
    c: int,
)
    requires
        closure_ok(cl, store, visible, targets),
        targets.len() == 0,
        forall|i: int| 0 <= i < store.len() ==> parents_below(#[trigger] store[i], i),
        0 <= c < cl.len(),
    ensures
        !cl[c],
    decreases c,
{
    if cl[c] {
        assert(!targets.contains(c as CommitId));
        let k = choose|k: int|
            0 <= k < store[c].parents.len() && (store[c].parents[k] as int) < cl.len()
                && cl[store[c].parents[k] as int];
        let p = store[c].parents[k] as int;
        assert(parents_below(store[c], c));
        lemma_closure_empty(cl, store, visible, targets, p);
    }
}

/// Whether some parent is already marked in the partial closure.
fn any_parent_in(cl: &Vec<bool>, parents: &Vec<CommitId>) -> (r: bool)
    requires
        forall|k: int| 0 <= k < parents@.len() ==> (parents@[k] as int) < cl@.len(),
    ensures
        r == exists|k: int| 0 <= k < parents@.len() && cl@[parents@[k] as int],
{
    let mut k: usize = 0;
    while k < parents.len()
        invariant
            0 <= k <= parents@.len(),
            forall|j: int| 0 <= j < parents@.len() ==> (parents@[j] as int) < cl@.len(),
            forall|j: int| 0 <= j < k ==> !cl@[parents@[j] as int],
        decreases parents@.len() - k,
    {
        let p = parents[k];
        if cl[p] {
            return true;
        }
        k += 1;
    }
    false
}

/// Compute the closure of targets and visible descendants. Ascending id
/// order is topological, so one pass settles every commit after its
/// parents.
pub fn compute_closure(repo: &MutableRepo, targets: &Vec<CommitId>) -> (cl: Vec<bool>)
    requires
        repo.wf(),
    ensures
        closure_ok(cl@, repo.store@, repo.visible@, targets@),
{
    let n = repo.num_commits();
    let mut cl: Vec<bool> = Vec::new();
    let mut c: usize = 0;
    while c < n
        invariant
            repo.wf(),
            n == repo.store@.len(),
            0 <= c <= n,
            cl@.len() == c,
            forall|i: int|
                0 <= i < c ==> #[trigger] cl@[i] == (targets@.contains(i as CommitId) || (
                repo.visible@[i] && exists|k: int|
                    0 <= k < repo.store@[i].parents.len() && (repo.store@[i].parents[k] as int) < i
                        && cl@[repo.store@[i].parents[k] as int])),
        decreases n - c,
    {
        let mut found = contains_id(targets, c);
        if !found && repo.is_visible(c) {
            let commit = repo.read_commit(c);
            proof {
                assert(parents_below(repo.store@[c as int], c as int));
                assert(commit@.parents == repo.store@[c as int].parents);
                assert forall|k: int|
                    0 <= k < commit.parents@.len() implies (commit.parents@[k] as int)
                    < cl@.len() by {
                    assert(commit@.parents[k] == repo.store@[c as int].parents[k]);
                }
            }
            found = any_parent_in(&cl, &commit.parents);
            proof {
                if found {
                    let k = choose|k: int|
                        0 <= k < commit.parents@.len() && cl@[commit.parents@[k] as int];
                    assert(0 <= k < repo.store@[c as int].parents.len() && (repo.store@[c
                        as int].parents[k] as int) < c as int && cl@[repo.store@[c
                        as int].parents[k] as int]);
                }
            }
        }
        cl.push(found);
        c += 1;
    }
    proof {
        assert forall|i: int| 0 <= i < cl@.len() implies #[trigger] cl@[i] == (targets@.contains(
            i as CommitId,
        ) || (repo.visible@[i] && exists|k: int|
            0 <= k < repo.store@[i].parents.len() && (repo.store@[i].parents[k] as int) < cl@.len()
                && cl@[repo.store@[i].parents[k] as int])) by {
            assert(parents_below(repo.store@[i], i));
        }
    }
    cl
}

/// The signing payload a rewrite presents to the backend: the source fields
/// with the parents remapped and no signature.
pub open spec fn rewrite_base(source: CommitData, nps: Seq<CommitId>) -> CommitData {
    CommitData { parents: nps, signature: Option::None, ..source }
}

/// Whether writing the rewrite succeeds: always, unless it asks the backend
/// for a fresh signature and the backend refuses.
pub open spec fn rewrite_ok<B: SigningBackend>(
    backend: B,
    source: CommitData,
    nps: Seq<CommitId>,
    behavior: SignBehavior,
    key: Option<Seq<char>>,
) -> bool {
    !(behavior is Own) || backend.sign_ok(rewrite_base(source, nps), key)
}

/// The content a rewrite persists: the source fields with remapped parents
/// and the signature the sign behavior resolves to.
pub open spec fn rewrite_content<B: SigningBackend>(
    backend: B,
    source: CommitData,
    nps: Seq<CommitId>,
    behavior: SignBehavior,
    key: Option<Seq<char>>,
) -> CommitData {
    match behavior {
        SignBehavior::Keep => CommitData {
            signature: source.signature,
            ..rewrite_base(source, nps)
        },
        SignBehavior::Drop => rewrite_base(source, nps),
        SignBehavior::Own => CommitData {
            signature: Option::Some(backend.sign_data(rewrite_base(source, nps), key)),
            ..rewrite_base(source, nps)
        },
    }
}

/// Which ids the map holds an outcome for.
pub open spec fn map_domain(m: Seq<Option<RewriteOutcome>>) -> Seq<bool> {
    Seq::new(m.len(), |i: int| m[i] is Some)
}

/// The map records that `c2` was rewritten into the single commit `q`.
pub open spec fn is_rewritten_to(m: Seq<Option<RewriteOutcome>>, c2: int, q: CommitId) -> bool {
    0 <= c2 < m.len() && m[c2] == Option::Some(RewriteOutcome::Rewritten(q))
}

/// Some processed commit was rewritten into `q`.
pub open spec fn shown(m: Seq<Option<RewriteOutcome>>, q: CommitId) -> bool {
    exists|c2: int| #[trigger] is_rewritten_to(m, c2, q)
}

/// Processing `q` replaced or removed it, hiding the original.
pub open spec fn hides(m: Seq<Option<RewriteOutcome>>, q: int) -> bool {
    0 <= q < m.len() && m[q] is Some && (m[q]->0 is Rewritten || m[q]->0 is Abandoned)
}

/// Visibility of `q` after the first `k` ids have been processed: an id
/// whose own processing hid it is visible only if a later step rewrote some
/// commit into it; any other id keeps its prior visibility, or becomes
/// visible when a step rewrites some commit into it.
pub open spec fn inv_vis(
    m: Seq<Option<RewriteOutcome>>,
    old_vis: Seq<bool>,
    k: int,
    q: int,
) -> bool {
    if hides(m, q) {
        exists|c2: int| q < c2 < k && #[trigger] is_rewritten_to(m, c2, q as CommitId)
    } else {
        (0 <= q < old_vis.len() && old_vis[q]) || exists|c2: int|
            0 <= c2 < k && #[trigger] is_rewritten_to(m, c2, q as CommitId)
    }
}

/// Visibility of `q` after a whole transform.
pub open spec fn vis_spec(m: Seq<Option<RewriteOutcome>>, old_vis: Seq<bool>, q: int) -> bool {
    inv_vis(m, old_vis, m.len() as int, q)
}

/// What the rewrite map says about one processed commit: the outcome the
/// policy's action prescribes, with parents remapped through the map, and
/// for a rewrite the persisted content — unchanged contents keep their id,
/// changed ones name a stored replacement.
pub open spec fn outcome_ok<P: RewritePolicy, B: SigningBackend>(
    policy: P,
    backend: B,
    old_store: Seq<CommitData>,
    new_store: Seq<CommitData>,
    m: Seq<Option<RewriteOutcome>>,
    c: int,
) -> bool {
    let source = old_store[c];
    let nps = remapped(m, source.parents);
    match policy.action_spec(c as CommitId, source) {
        RewriteAction::NoOp => m[c] == Option::Some(RewriteOutcome::Unchanged),
        RewriteAction::Abandon => {
            &&& (m[c] matches Option::Some(RewriteOutcome::Abandoned(v)) && v@ == nps)
        },
        RewriteAction::Rewrite { sign_behavior, sign_key } => {
            let content = rewrite_content(backend, source, nps, sign_behavior, key_view(sign_key));
            &&& rewrite_ok(backend, source, nps, sign_behavior, key_view(sign_key))
            &&& match m[c] {
                Option::Some(RewriteOutcome::Unchanged) => content == source,
                Option::Some(RewriteOutcome::Rewritten(q)) => {
                    &&& content != source
                    &&& q != c
                    &&& (q as int) < new_store.len()
                    &&& new_store[q as int] == content
                },
                _ => false,
            }
        },
    }
}

/// The whole contract of one transform: the map covers exactly the closure
/// of the targets and their visible descendants, every entry matches the
/// policy's prescribed outcome, the store only grew, every fresh commit is
/// the result of some rewrite, and visibility ends exactly as the recorded
/// outcomes dictate.
pub open spec fn transform_post<P: RewritePolicy, B: SigningBackend>(
    policy: P,
    backend: B,
    old_store: Seq<CommitData>,
    old_vis: Seq<bool>,
    targets: Seq<CommitId>,
    m: Seq<Option<RewriteOutcome>>,
    new_store: Seq<CommitData>,
    new_vis: Seq<bool>,
) -> bool {
    let n = old_store.len() as int;
    &&& m.len() == n
    &&& new_store.len() >= n
    &&& forall|i: int| 0 <= i < n ==> new_store[i] == old_store[i]
    &&& closure_ok(map_domain(m), old_store, old_vis, targets)
    &&& forall|c: int|
        0 <= c < n && #[trigger] m[c] is Some ==> outcome_ok(
            policy,
            backend,
            old_store,
            new_store,
            m,
            c,
        )
    &&& forall|c: int|
        0 <= c < n && #[trigger] m[c] is Some ==> outcome_below(
            m[c]->0,
            c as CommitId,
            new_store.len() as int,
        )
    &&& forall|q: int| n <= q < new_store.len() ==> #[trigger] shown(m, q as CommitId)
    &&& new_vis.len() == new_store.len()
    &&& forall|q: int| 0 <= q < new_vis.len() ==> #[trigger] new_vis[q] == vis_spec(m, old_vis, q)
}

/// An entry settled for one id stays settled: outcomes are judged only
/// against the map at the commit's parents, which lie below it, and against
/// store entries that never change.
proof fn lemma_outcome_frame<P: RewritePolicy, B: SigningBackend>(
    policy: P,
    backend: B,
    old_store: Seq<CommitData>,
    store1: Seq<CommitData>,
    store2: Seq<CommitData>,
    m1: Seq<Option<RewriteOutcome>>,
    m2: Seq<Option<RewriteOutcome>>,
    c: int,
    k: int,
)
    requires
        0 <= c < k,
        m1.len() == m2.len(),
        c < m1.len(),
        parents_below(old_store[c], c),
        forall|p: int| 0 <= p < m1.len() && p != k ==> m1[p] == m2[p],
        store2.len() >= store1.len(),
        forall|i: int| 0 <= i < store1.len() ==> store2[i] == store1[i],
        outcome_ok(policy, backend, old_store, store1, m1, c),
    ensures
        outcome_ok(policy, backend, old_store, store2, m2, c),
{
    let parents = old_store[c].parents;
    assert forall|j: int| 0 <= j < parents.len() implies replacement(m1, parents[j]) == replacement(
        m2,
        parents[j],
    ) by {
        assert((parents[j] as int) < c < k);
    }
    lemma_remapped_frame(m1, m2, parents);
    assert(m1[c] == m2[c]);
}

/// One processing step keeps the visibility bookkeeping exact.
proof fn lemma_vis_step(
    m0: Seq<Option<RewriteOutcome>>,
    old_vis: Seq<bool>,
    vis0: Seq<bool>,
    vis2: Seq<bool>,
    k: int,
    o: RewriteOutcome,
)
    requires
        0 <= k < m0.len(),
        m0[k as int] is None,
        forall|c: int| k <= c < m0.len() ==> m0[c] is None,
        vis0.len() >= m0.len(),
        vis0.len() >= old_vis.len(),
        vis0.len() <= usize::MAX as int,
        vis2.len() <= usize::MAX as int,
        forall|q: int| 0 <= q < vis0.len() ==> #[trigger] vis0[q] == inv_vis(m0, old_vis, k, q),
        !(o is Diverged),
        (match o {
            RewriteOutcome::Unchanged => vis2 == vis0,
            RewriteOutcome::Abandoned(_) => vis2 == vis0.update(k, false),
            RewriteOutcome::Rewritten(q2) => {
                &&& (q2 as int) != k
                &&& ((q2 as int) < vis0.len() && vis2 == vis0.update(k, false).update(
                    q2 as int,
                    true,
                ) || ((q2 as int) == vis0.len() && vis2 == vis0.push(false).update(k, false).update(
                    q2 as int,
                    true,
                ) && forall|c2: int| !is_rewritten_to(m0, c2, q2)))
            },
            RewriteOutcome::Diverged(_) => false,
        }),
    ensures
        forall|q: int|
            0 <= q < vis2.len() ==> #[trigger] vis2[q] == inv_vis(
                m0.update(k, Option::Some(o)),
                old_vis,
                k + 1,
                q,
            ),
{
    let m2 = m0.update(k, Option::Some(o));
    assert forall|q: int| 0 <= q < vis2.len() implies #[trigger] vis2[q] == inv_vis(
        m2,
        old_vis,
        k + 1,
        q,
    ) by {
        if q == k {
            match o {
                RewriteOutcome::Unchanged => {
                    assert(!hides(m2, q));
                    assert(!hides(m0, q));
                    if exists|c2: int| 0 <= c2 < k + 1 && #[trigger] is_rewritten_to(m2, c2, q as CommitId) {
                        let c2 = choose|c2: int|
                            0 <= c2 < k + 1 && #[trigger] is_rewritten_to(m2, c2, q as CommitId);
                        assert(c2 != k);
                        assert(is_rewritten_to(m0, c2, q as CommitId));
                    }
                    if exists|c2: int| 0 <= c2 < k && #[trigger] is_rewritten_to(m0, c2, q as CommitId) {
                        let c2 = choose|c2: int|
                            0 <= c2 < k && #[trigger] is_rewritten_to(m0, c2, q as CommitId);
                        assert(is_rewritten_to(m2, c2, q as CommitId));
                    }
                },
                _ => {
                    assert(hides(m2, q));
                    assert(vis2[q] == false);
                    if exists|c2: int| q < c2 < k + 1 && #[trigger] is_rewritten_to(m2, c2, q as CommitId) {
                        let c2 = choose|c2: int|
                            q < c2 < k + 1 && #[trigger] is_rewritten_to(m2, c2, q as CommitId);
                        assert(c2 == k);
                        assert(m2[k] == Option::Some(o));
                        assert(false);
                    }
                },
            }
        } else {
            let shown_new = o matches RewriteOutcome::Rewritten(q2) && q2 as int == q;
            if shown_new {
                assert(vis2[q] == true);
                assert(is_rewritten_to(m2, k, q as CommitId));
                if hides(m2, q) {
                    assert(m2[q] == m0[q]);
                    assert(m0[q] is Some);
                    assert(q < k);
                }
            } else {
                assert(vis2[q] == if q < vis0.len() {
                    vis0[q]
                } else {
                    false
                });
                assert(hides(m2, q) == hides(m0, q));
                if q < vis0.len() {
                    if hides(m0, q) {
                        if exists|c2: int| q < c2 < k + 1 && #[trigger] is_rewritten_to(m2, c2, q as CommitId) {
                            let c2 = choose|c2: int|
                                q < c2 < k + 1 && #[trigger] is_rewritten_to(m2, c2, q as CommitId);
                            assert(c2 != k);
                            assert(is_rewritten_to(m0, c2, q as CommitId));
                        }
                        if exists|c2: int| q < c2 < k && #[trigger] is_rewritten_to(m0, c2, q as CommitId) {
                            let c2 = choose|c2: int|
                                q < c2 < k && #[trigger] is_rewritten_to(m0, c2, q as CommitId);
                            assert(is_rewritten_to(m2, c2, q as CommitId));
                        }
                    } else {
                        if exists|c2: int| 0 <= c2 < k + 1 && #[trigger] is_rewritten_to(m2, c2, q as CommitId) {
                            let c2 = choose|c2: int|
                                0 <= c2 < k + 1 && #[trigger] is_rewritten_to(m2, c2, q as CommitId);
                            assert(c2 != k);
                            assert(is_rewritten_to(m0, c2, q as CommitId));
                        }
                        if exists|c2: int| 0 <= c2 < k && #[trigger] is_rewritten_to(m0, c2, q as CommitId) {
                            let c2 = choose|c2: int|
                                0 <= c2 < k && #[trigger] is_rewritten_to(m0, c2, q as CommitId);
                            assert(is_rewritten_to(m2, c2, q as CommitId));
                        }
                    }
                } else {
                    assert(!hides(m0, q));
                    assert(vis2[q] == false);
                    assert(q >= old_vis.len());
                    if exists|c2: int| 0 <= c2 < k + 1 && #[trigger] is_rewritten_to(m2, c2, q as CommitId) {
                        let c2 = choose|c2: int|
                            0 <= c2 < k + 1 && #[trigger] is_rewritten_to(m2, c2, q as CommitId);
                        assert(c2 != k);
                        assert(is_rewritten_to(m0, c2, q as CommitId));
                        assert(inv_vis(m0, old_vis, k, q));
                        assert(false);
                    }
                }
            }
        }
    }
}

/// Settled entries, recorded bounds and fresh-commit witnesses survive one
/// step: recording an outcome for `c` and extending the store.
proof fn lemma_step_frame<P: RewritePolicy, B: SigningBackend>(
    policy: P,
    backend: B,
    old_store: Seq<CommitData>,
    store1: Seq<CommitData>,
    store2: Seq<CommitData>,
    m0: Seq<Option<RewriteOutcome>>,
    o: RewriteOutcome,
    c: int,
)
    requires
        0 <= c < m0.len(),
        m0[c] is None,
        m0.len() == old_store.len(),
        old_store.len() <= store1.len(),
        forall|i: int| 0 <= i < old_store.len() ==> parents_below(#[trigger] old_store[i], i),
        store2.len() >= store1.len(),
        forall|i: int| 0 <= i < store1.len() ==> store2[i] == store1[i],
        forall|i: int|
            0 <= i < c && #[trigger] m0[i] is Some ==> outcome_ok(
                policy,
                backend,
                old_store,
                store1,
                m0,
                i,
            ),
        forall|i: int|
            0 <= i < c && #[trigger] m0[i] is Some ==> outcome_below(
                m0[i]->0,
                i as CommitId,
                store1.len() as int,
            ),
        forall|q: int|
            old_store.len() <= q < store1.len() ==> #[trigger] shown(m0, q as CommitId),
    ensures
        forall|i: int|
            0 <= i < c && #[trigger] m0.update(c, Option::Some(o))[i] is Some ==> outcome_ok(
                policy,
                backend,
                old_store,
                store2,
                m0.update(c, Option::Some(o)),
                i,
            ),
        forall|i: int|
            0 <= i < c && #[trigger] m0.update(c, Option::Some(o))[i] is Some ==> outcome_below(
                m0.update(c, Option::Some(o))[i]->0,
                i as CommitId,
                store2.len() as int,
            ),
        forall|q: int|
            old_store.len() <= q < store1.len() ==> #[trigger] shown(
                m0.update(c, Option::Some(o)),
                q as CommitId,
            ),
{
    let m2 = m0.update(c, Option::Some(o));
    assert forall|i: int| 0 <= i < c && #[trigger] m2[i] is Some implies outcome_ok(
        policy,
        backend,
        old_store,
        store2,
        m2,
        i,
    ) by {
        assert(m0[i] is Some);
        lemma_outcome_frame(policy, backend, old_store, store1, store2, m0, m2, i, c);
    }
    assert forall|q: int|
        old_store.len() <= q < store1.len() implies #[trigger] shown(m2, q as CommitId) by {
        assert(shown(m0, q as CommitId));
        let c2 = choose|c2: int| #[trigger] is_rewritten_to(m0, c2, q as CommitId);
        assert(c2 != c);
        assert(is_rewritten_to(m2, c2, q as CommitId));
    }
}

/// The walk's bookkeeping after the first `k` ids are settled: the map
/// covers exactly the closure below `k` and matches the policy there, the
/// store has only grown, fresh commits all stem from rewrites, and
/// visibility is exactly what the recorded outcomes dictate.
pub open spec fn walk_inv<P: RewritePolicy, B: SigningBackend>(
    policy: P,
    backend: B,
    old_store: Seq<CommitData>,
    old_vis: Seq<bool>,
    targets: Seq<CommitId>,
    cl: Seq<bool>,
    m: Seq<Option<RewriteOutcome>>,
    store: Seq<CommitData>,
    vis: Seq<bool>,
    k: int,
) -> bool {
    let n = old_store.len() as int;
    &&& m.len() == n
    &&& cl.len() == n
    &&& old_vis.len() == n
    &&& closure_ok(cl, old_store, old_vis, targets)
    &&& store.len() >= n
    &&& store.len() <= usize::MAX as int
    &&& vis.len() == store.len()
    &&& forall|i: int| 0 <= i < n ==> store[i] == old_store[i]
    &&& forall|i: int| k <= i < n ==> m[i] is None
    &&& forall|i: int| 0 <= i < k ==> (#[trigger] m[i] is Some <==> cl[i])
    &&& forall|i: int|
        0 <= i < k && #[trigger] m[i] is Some ==> outcome_ok(policy, backend, old_store, store, m, i)
    &&& forall|i: int|
        0 <= i < k && #[trigger] m[i] is Some ==> outcome_below(
            m[i]->0,
            i as CommitId,
            store.len() as int,
        )
    &&& forall|q: int| n <= q < store.len() ==> #[trigger] shown(m, q as CommitId)
    &&& forall|q: int| 0 <= q < vis.len() ==> #[trigger] vis[q] == inv_vis(m, old_vis, k, q)
}

/// Passing an id that recorded no outcome leaves every visibility verdict
/// as it was.
proof fn lemma_inv_vis_skip(m: Seq<Option<RewriteOutcome>>, old_vis: Seq<bool>, k: int)
    requires
        0 <= k < m.len(),
        m[k] is None,
    ensures
        forall|q: int| #[trigger] inv_vis(m, old_vis, k, q) == inv_vis(m, old_vis, k + 1, q),
{
    assert forall|q: int| #[trigger] inv_vis(m, old_vis, k, q) == inv_vis(m, old_vis, k + 1, q) by {
        if hides(m, q) {
            if exists|c2: int| q < c2 < k + 1 && #[trigger] is_rewritten_to(m, c2, q as CommitId) {
                let c2 = choose|c2: int|
                    q < c2 < k + 1 && #[trigger] is_rewritten_to(m, c2, q as CommitId);
                assert(c2 != k);
                assert(q < c2 < k && is_rewritten_to(m, c2, q as CommitId));
            }
        } else {
            if exists|c2: int| 0 <= c2 < k + 1 && #[trigger] is_rewritten_to(m, c2, q as CommitId) {
                let c2 = choose|c2: int|
                    0 <= c2 < k + 1 && #[trigger] is_rewritten_to(m, c2, q as CommitId);
                assert(c2 != k);
                assert(0 <= c2 < k && is_rewritten_to(m, c2, q as CommitId));
            }
        }
    }
}

/// Process one closure commit: remap its parents through the map, ask the
/// policy for its fate, record the outcome, and adjust visibility.
#[verifier::rlimit(100)]
#[verifier::spinoff_prover]
fn process_one<P: RewritePolicy, B: SigningBackend>(
    repo: &mut MutableRepo,
    m: &mut RewriteMap,
    policy: &P,
    backend: &B,
    c: usize,
    Ghost(old_store): Ghost<Seq<CommitData>>,
    Ghost(old_vis): Ghost<Seq<bool>>,
    Ghost(targets): Ghost<Seq<CommitId>>,
    Ghost(cl): Ghost<Seq<bool>>,
) -> (r: Result<(), SignError>)
    requires
        old(repo).wf(),
        walk_inv(
            *policy,
            *backend,
            old_store,
            old_vis,
            targets,
            cl,
            old(m).entries@,
            old(repo).store@,
            old(repo).visible@,
            c as int,
        ),
        (c as int) < old_store.len(),
        cl[c as int],
    ensures
        final(repo).wf(),
        final(repo).store@.len() >= old(repo).store@.len(),
        forall|i: int|
            0 <= i < old(repo).store@.len() ==> final(repo).store@[i] == old(repo).store@[i],
        r is Ok ==> walk_inv(
            *policy,
            *backend,
            old_store,
            old_vis,
            targets,
            cl,
            final(m).entries@,
            final(repo).store@,
            final(repo).visible@,
            c as int + 1,
        ),
        r is Err ==> final(m).entries@ == old(m).entries@,
        r is Err ==> (policy.action_spec(c, old_store[c as int]) matches RewriteAction::Rewrite {
            sign_behavior: SignBehavior::Own,
            ..
        }),
{
    proof {
        assert forall|i2: int| 0 <= i2 < old_store.len() implies parents_below(
            #[trigger] old_store[i2],
            i2,
        ) by {
            assert(repo.store@[i2] == old_store[i2]);
        }
    }
    let commit = clone_commit(repo.read_commit(c));
    proof {
        assert(commit@ == old_store[c as int]);
        assert(parents_below(old_store[c as int], c as int));
    }
    let ghost m0 = m.entries@;
    let ghost store0 = repo.store@;
    let ghost vis0 = repo.visible@;
    let vis_len: usize = repo.visible.len();
    let nps = remap_parents(m, &commit.parents);
    proof {
        lemma_remapped_below(m0, commit@.parents, store0.len() as int);
    }
    let action = policy.action(c, &commit);
    let ghost source = old_store[c as int];
    match action {
        RewriteAction::NoOp => {
            m.entries.set(c, Option::Some(RewriteOutcome::Unchanged));
            proof {
                let o = RewriteOutcome::Unchanged;
                let m2 = m.entries@;
                assert(m2 =~= m0.update(c as int, Option::Some(o)));
                lemma_step_frame(*policy, *backend, old_store, store0, store0, m0, o, c as int);
                lemma_remapped_frame_at(m0, m2, source.parents, c as int);
                assert(outcome_ok(*policy, *backend, old_store, store0, m2, c as int));
                lemma_vis_step(m0, old_vis, vis0, vis0, c as int, o);
            }
        },
        RewriteAction::Abandon => {
            repo.set_visible(c, false);
            m.entries.set(c, Option::Some(RewriteOutcome::Abandoned(nps)));
            proof {
                let o = RewriteOutcome::Abandoned(m.entries@[c as int]->0->Abandoned_0);
                let m2 = m.entries@;
                assert(m2 =~= m0.update(c as int, Option::Some(o)));
                lemma_step_frame(*policy, *backend, old_store, store0, store0, m0, o, c as int);
                lemma_remapped_frame_at(m0, m2, source.parents, c as int);
                assert(outcome_ok(*policy, *backend, old_store, store0, m2, c as int));
                assert(repo.visible@ =~= vis0.update(c as int, false));
                lemma_vis_step(m0, old_vis, vis0, vis0.update(c as int, false), c as int, o);
            }
        },
        RewriteAction::Rewrite { sign_behavior, sign_key } => {
            let ghost gsb = sign_behavior;
            let ghost gsk = sign_key;
            let ghost gnps = nps@;
            let builder = CommitBuilder::from_commit(&commit).set_parents(nps).set_sign_behavior(
                sign_behavior,
            ).set_sign_key(sign_key);
            let ghost gb = builder;
            proof {
                assert(gb.base() =~= rewrite_base(source, gnps));
                assert(gb.content_data(*backend) =~= rewrite_content(
                    *backend,
                    source,
                    gnps,
                    gsb,
                    key_view(gsk),
                ));
                assert(gb.content_ok(*backend) == rewrite_ok(
                    *backend,
                    source,
                    gnps,
                    gsb,
                    key_view(gsk),
                ));
            }
            match builder.write(repo, backend) {
                Result::Err(e) => {
                    proof {
                        assert(!gb.content_ok(*backend));
                        assert(gsb is Own);
                    }
                    return Result::Err(e);
                },
                Result::Ok(id2) => {
                    let ghost content = gb.content_data(*backend);
                    let ghost store1 = repo.store@;
                    let ghost vis1 = repo.visible@;
                    if id2 == c {
                        proof {
                            assert(store1[id2 as int] == content);
                            assert(store1[c as int] == source);
                            assert(content == source);
                            assert(store1 == store0);
                            assert(vis1 == vis0);
                        }
                        m.entries.set(c, Option::Some(RewriteOutcome::Unchanged));
                        proof {
                            let o = RewriteOutcome::Unchanged;
                            let m2 = m.entries@;
                            assert(m2 =~= m0.update(c as int, Option::Some(o)));
                            lemma_step_frame(
                                *policy,
                                *backend,
                                old_store,
                                store0,
                                store0,
                                m0,
                                o,
                                c as int,
                            );
                            lemma_remapped_frame_at(m0, m2, source.parents, c as int);
                            assert(outcome_ok(*policy, *backend, old_store, store0, m2, c as int));
                            lemma_vis_step(m0, old_vis, vis0, vis0, c as int, o);
                        }
                    } else {
                        proof {
                            if content == source {
                                assert(exists|i2: int|
                                    0 <= i2 < store0.len() && store0[i2] == content);
                                assert(store0[id2 as int] == content);
                                assert(store0[id2 as int] == store0[c as int]);
                                assert(false);
                            }
                        }
                        repo.set_visible(c, false);
                        repo.set_visible(id2, true);
                        let vl2: usize = repo.visible.len();
                        m.entries.set(c, Option::Some(RewriteOutcome::Rewritten(id2)));
                        proof {
                            assert(repo.visible@.len() == vl2 as int);
                            assert(vis0.len() == vis_len as int);
                            let o = RewriteOutcome::Rewritten(id2);
                            let m2 = m.entries@;
                            assert(m2 =~= m0.update(c as int, Option::Some(o)));
                            lemma_step_frame(
                                *policy,
                                *backend,
                                old_store,
                                store0,
                                store1,
                                m0,
                                o,
                                c as int,
                            );
                            lemma_remapped_frame_at(m0, m2, source.parents, c as int);
                            assert(outcome_ok(*policy, *backend, old_store, store1, m2, c as int));
                            if exists|i2: int| 0 <= i2 < store0.len() && store0[i2] == content {
                                assert(store1 == store0);
                                assert(vis1 == vis0);
                                assert(repo.visible@ =~= vis0.update(c as int, false).update(
                                    id2 as int,
                                    true,
                                ));
                                lemma_vis_step(m0, old_vis, vis0, repo.visible@, c as int, o);
                            } else {
                                assert(id2 as int == store0.len());
                                assert forall|c2: int| !is_rewritten_to(m0, c2, id2) by {
                                    if is_rewritten_to(m0, c2, id2) {
                                        assert(m0[c2] is Some);
                                        assert(c2 < c);
                                        assert(outcome_below(
                                            m0[c2]->0,
                                            c2 as CommitId,
                                            store0.len() as int,
                                        ));
                                        assert(outcome_ids(m0[c2]->0, c2 as CommitId)[0] == id2);
                                    }
                                }
                                assert(repo.visible@ =~= vis0.push(false).update(
                                    c as int,
                                    false,
                                ).update(id2 as int, true));
                                lemma_vis_step(m0, old_vis, vis0, repo.visible@, c as int, o);
                                assert(is_rewritten_to(m2, c as int, id2));
                                assert(shown(m2, id2));
                            }
                        }
                    }
                },
            }
        },
    }
    Result::Ok(())
}

impl MutableRepo {
    /// Walk the targets and their visible descendants in topological order,
    /// apply the policy's action to each, remap parent references through
    /// the accumulated rewrite map, and record every outcome before any
    /// child is processed. On a signing failure the walk aborts: commits
    /// already written stay as inert orphans and no visibility is promised,
    /// so the surrounding transaction must be dropped unfinished.
    pub fn transform_descendants<P: RewritePolicy, B: SigningBackend>(
        &mut self,
        targets: &Vec<CommitId>,
        policy: &P,
        backend: &B,
    ) -> (r: Result<RewriteMap, SignError>)
        requires
            old(self).wf(),
            forall|j: int| 0 <= j < targets@.len() ==> (targets@[j] as int) < old(self).store@.len(),
        ensures
            final(self).wf(),
            final(self).store@.len() >= old(self).store@.len(),
            forall|i: int|
                0 <= i < old(self).store@.len() ==> final(self).store@[i] == old(self).store@[i],
            r matches Ok(m) ==> transform_post(
                *policy,
                *backend,
                old(self).store@,
                old(self).visible@,
                targets@,
                m.entries@,
                final(self).store@,
                final(self).visible@,
            ),
            r is Err ==> exists|id: CommitId, cd: CommitData|
                (#[trigger] policy.action_spec(id, cd)) matches RewriteAction::Rewrite {
                    sign_behavior: SignBehavior::Own,
                    ..
                },
    {
        let ghost old_store = old(self).store@;
        let ghost old_vis = old(self).visible@;
        let n = self.num_commits();
        let cl = compute_closure(self, targets);
        let mut m = RewriteMap { entries: Vec::new() };
        let mut i: usize = 0;
        while i < n
            invariant
                0 <= i <= n,
                m.entries@.len() == i,
                forall|j: int| 0 <= j < i ==> m.entries@[j] is None,
            decreases n - i,
        {
            m.entries.push(Option::None);
            i += 1;
        }
        proof {
            assert forall|q: int|
                0 <= q < self.visible@.len() implies #[trigger] self.visible@[q] == inv_vis(
                m.entries@,
                old_vis,
                0,
                q,
            ) by {
                assert(!hides(m.entries@, q));
            }
            assert(walk_inv(
                *policy,
                *backend,
                old_store,
                old_vis,
                targets@,
                cl@,
                m.entries@,
                self.store@,
                self.visible@,
                0,
            ));
        }
        let mut c: usize = 0;
        while c < n
            invariant
                self.wf(),
                n == old_store.len(),
                old_store == old(self).store@,
                old_vis == old(self).visible@,
                0 <= c <= n,
                walk_inv(
                    *policy,
                    *backend,
                    old_store,
                    old_vis,
                    targets@,
                    cl@,
                    m.entries@,
                    self.store@,
                    self.visible@,
                    c as int,
                ),
            decreases n - c,
        {
            if cl[c] {
                match process_one(
                    self,
                    &mut m,
                    policy,
                    backend,
                    c,
                    Ghost(old_store),
                    Ghost(old_vis),
                    Ghost(targets@),
                    Ghost(cl@),
                ) {
                    Result::Err(e) => {
                        return Result::Err(e);
                    },
                    Result::Ok(_) => {},
                }
            } else {
                proof {
                    lemma_inv_vis_skip(m.entries@, old_vis, c as int);
                }
            }
            c += 1;
        }
        proof {
            assert(map_domain(m.entries@) =~= cl@);
            assert(closure_ok(map_domain(m.entries@), old_store, old_vis, targets@));
            assert forall|q: int|
                0 <= q < self.visible@.len() implies #[trigger] self.visible@[q] == vis_spec(
                m.entries@,
                old_vis,
                q,
            ) by {
                assert(self.visible@[q] == inv_vis(m.entries@, old_vis, n as int, q));
            }
        }
        Result::Ok(m)
    }
}

/// Updating the map at an index above every parent leaves their remapping
/// unchanged.
proof fn lemma_remapped_frame_at(
    m0: Seq<Option<RewriteOutcome>>,
    m2: Seq<Option<RewriteOutcome>>,
    parents: Seq<CommitId>,
    c: int,
)
    requires
        m0.len() == m2.len(),
        forall|p: int| 0 <= p < m0.len() && p != c ==> m0[p] == m2[p],
        forall|k: int| 0 <= k < parents.len() ==> (parents[k] as int) < c,
    ensures
        remapped(m0, parents) == remapped(m2, parents),
{
    assert forall|k: int|
        0 <= k < parents.len() implies replacement(m0, parents[k]) == replacement(
        m2,
        parents[k],
    ) by {
        assert((parents[k] as int) < c);
    }
    lemma_remapped_frame(m0, m2, parents);
}

} // verus!
