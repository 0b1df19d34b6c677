//! Laws of the transform engine, stated and proved once for every policy
//! and every signing backend.

use vstd::prelude::*;
use crate::commit::CommitData;
use crate::commit::CommitId;
use crate::commit::SignBehavior;
use crate::rewrite::RewriteAction;
use crate::rewrite::RewriteOutcome;
use crate::rewrite::RewritePolicy;
use crate::rewrite::hides;
use crate::rewrite::is_rewritten_to;
use crate::rewrite::lemma_closure_empty;
use crate::rewrite::map_domain;
use crate::rewrite::outcome_ok;
use crate::rewrite::remapped;
use crate::rewrite::replacement;
use crate::rewrite::rewrite_base;
use crate::rewrite::rewrite_content;
use crate::rewrite::shown;
use crate::rewrite::transform_post;
use crate::rewrite::vis_spec;
use crate::signing::SigningBackend;
use crate::signing::key_view;
use crate::store::parents_below;

verus! {

/// Whatever the sign behavior, a rewrite keeps the source's change id and
/// authored content — only parents and signature can move.
pub proof fn lemma_rewrite_content_fields<B: SigningBackend>(
    backend: B,
    source: CommitData,
    nps: Seq<CommitId>,
    behavior: SignBehavior,
    key: Option<Seq<char>>,
)
    ensures
        rewrite_content(backend, source, nps, behavior, key).change_id == source.change_id,
        rewrite_content(backend, source, nps, behavior, key).author_email == source.author_email,
        rewrite_content(backend, source, nps, behavior, key).description == source.description,
        rewrite_content(backend, source, nps, behavior, key).tree == source.tree,
        rewrite_content(backend, source, nps, behavior, key).parents == nps,
        behavior is Own ==> rewrite_content(backend, source, nps, behavior, key).signature
            == Option::Some(backend.sign_data(rewrite_base(source, nps), key)),
        behavior is Drop ==> rewrite_content(backend, source, nps, behavior, key).signature
            is None,
        behavior is Keep ==> rewrite_content(backend, source, nps, behavior, key).signature
            == source.signature,
{
    match behavior {
        SignBehavior::Keep => {},
        SignBehavior::Drop => {},
        SignBehavior::Own => {},
    }
}

/// A transform whose policy chooses no-op for every commit it processes
/// leaves the graph without any delta: the store and the visible set come
/// out exactly as they went in, and every processed commit is recorded
/// unchanged.
pub proof fn lemma_noop_policy_zero_deltas<P: RewritePolicy, B: SigningBackend>(
    policy: P,
    backend: B,
    old_store: Seq<CommitData>,
    old_vis: Seq<bool>,
    targets: Seq<CommitId>,
    m: Seq<Option<RewriteOutcome>>,
    new_store: Seq<CommitData>,
    new_vis: Seq<bool>,
)
    requires
        transform_post(policy, backend, old_store, old_vis, targets, m, new_store, new_vis),
        old_vis.len() == old_store.len(),
        forall|c: int|
            0 <= c < m.len() && #[trigger] m[c] is Some ==> policy.action_spec(
                c as CommitId,
                old_store[c],
            ) is NoOp,
    ensures
        new_store == old_store,
        new_vis == old_vis,
        forall|c: int|
            0 <= c < m.len() && #[trigger] m[c] is Some ==> m[c] == Option::Some(
                RewriteOutcome::Unchanged,
            ),
{
    assert forall|c: int| 0 <= c < m.len() && #[trigger] m[c] is Some implies m[c] == Option::Some(
        RewriteOutcome::Unchanged,
    ) by {
        assert(outcome_ok(policy, backend, old_store, new_store, m, c));
    }
    if new_store.len() > old_store.len() {
        let q = old_store.len() as int;
        assert(shown(m, q as CommitId));
        let c2 = choose|c2: int| #[trigger] is_rewritten_to(m, c2, q as CommitId);
        assert(m[c2] is Some);
        assert(m[c2] == Option::Some(RewriteOutcome::Unchanged));
        assert(false);
    }
    assert(new_store =~= old_store);
    assert forall|q: int| 0 <= q < new_vis.len() implies new_vis[q] == old_vis[q] by {
        assert(new_vis[q] == vis_spec(m, old_vis, q));
        if hides(m, q) {
            assert(m[q] is Some);
            assert(false);
        }
        if exists|c2: int| 0 <= c2 < m.len() && #[trigger] is_rewritten_to(m, c2, q as CommitId) {
            let c2 = choose|c2: int|
                0 <= c2 < m.len() && #[trigger] is_rewritten_to(m, c2, q as CommitId);
            assert(m[c2] is Some);
            assert(m[c2] == Option::Some(RewriteOutcome::Unchanged));
            assert(false);
        }
    }
    assert(new_vis =~= old_vis);
}

/// With no targets a transform processes nothing and changes nothing.
pub proof fn lemma_empty_targets_zero_deltas<P: RewritePolicy, B: SigningBackend>(
    policy: P,
    backend: B,
    old_store: Seq<CommitData>,
    old_vis: Seq<bool>,
    targets: Seq<CommitId>,
    m: Seq<Option<RewriteOutcome>>,
    new_store: Seq<CommitData>,
    new_vis: Seq<bool>,
)
    requires
        transform_post(policy, backend, old_store, old_vis, targets, m, new_store, new_vis),
        old_vis.len() == old_store.len(),
        targets.len() == 0,
        forall|i: int| 0 <= i < old_store.len() ==> parents_below(#[trigger] old_store[i], i),
    ensures
        new_store == old_store,
        new_vis == old_vis,
        forall|c: int| 0 <= c < m.len() ==> m[c] is None,
{
    assert forall|c: int| 0 <= c < m.len() implies m[c] is None by {
        lemma_closure_empty(map_domain(m), old_store, old_vis, targets, c);
        assert(map_domain(m)[c] == (m[c] is Some));
    }
    lemma_noop_policy_zero_deltas(
        policy,
        backend,
        old_store,
        old_vis,
        targets,
        m,
        new_store,
        new_vis,
    );
}

/// A processed commit whose policy asks for a fresh signature it does not
/// already carry is genuinely rewritten: the result is a new id — the
/// content hash moved — while the change id, the stable identity across
/// rewrites, and the authored content are preserved, and the fresh
/// signature is attached.
pub proof fn lemma_own_sign_rewrites<P: RewritePolicy, B: SigningBackend>(
    policy: P,
    backend: B,
    old_store: Seq<CommitData>,
    old_vis: Seq<bool>,
    targets: Seq<CommitId>,
    m: Seq<Option<RewriteOutcome>>,
    new_store: Seq<CommitData>,
    new_vis: Seq<bool>,
    c: int,
)
    requires
        transform_post(policy, backend, old_store, old_vis, targets, m, new_store, new_vis),
        0 <= c < m.len(),
        m[c] is Some,
        ({
            let a = policy.action_spec(c as CommitId, old_store[c]);
            &&& a matches RewriteAction::Rewrite { sign_behavior, sign_key } && sign_behavior
                is Own && old_store[c].signature != Option::Some(
                backend.sign_data(
                    rewrite_base(old_store[c], remapped(m, old_store[c].parents)),
                    key_view(sign_key),
                ),
            )
        }),
    ensures
        m[c] is Some && m[c]->0 is Rewritten,
        ({
            let q = m[c]->0->Rewritten_0 as int;
            let nps = remapped(m, old_store[c].parents);
            &&& q != c
            &&& 0 <= q < new_store.len()
            &&& new_store[q].change_id == old_store[c].change_id
            &&& new_store[q].author_email == old_store[c].author_email
            &&& new_store[q].description == old_store[c].description
            &&& new_store[q].tree == old_store[c].tree
            &&& new_store[q].parents == nps
            &&& new_store[q].signature is Some
        }),
{
    assert(outcome_ok(policy, backend, old_store, new_store, m, c));
    let a = policy.action_spec(c as CommitId, old_store[c]);
    let source = old_store[c];
    let nps = remapped(m, source.parents);
    match a {
        RewriteAction::Rewrite { sign_behavior, sign_key } => {
            let content = rewrite_content(backend, source, nps, sign_behavior, key_view(sign_key));
            lemma_rewrite_content_fields(backend, source, nps, sign_behavior, key_view(sign_key));
            if m[c] == Option::Some(RewriteOutcome::Unchanged) {
                assert(content == source);
                assert(false);
            }
            assert(m[c]->0 is Rewritten);
        },
        _ => {
            assert(false);
        },
    }
}

/// A processed commit whose rewrite leaves the signature alone but remaps
/// its parents to a genuinely different list is also rewritten to a new
/// id — this is what rebases every descendant of a rewritten commit —
/// again preserving its change id and authored content.
pub proof fn lemma_changed_parents_rewrites<P: RewritePolicy, B: SigningBackend>(
    policy: P,
    backend: B,
    old_store: Seq<CommitData>,
    old_vis: Seq<bool>,
    targets: Seq<CommitId>,
    m: Seq<Option<RewriteOutcome>>,
    new_store: Seq<CommitData>,
    new_vis: Seq<bool>,
    c: int,
)
    requires
        transform_post(policy, backend, old_store, old_vis, targets, m, new_store, new_vis),
        0 <= c < m.len(),
        m[c] is Some,
        policy.action_spec(c as CommitId, old_store[c]) is Rewrite,
        remapped(m, old_store[c].parents) != old_store[c].parents,
    ensures
        m[c] is Some && m[c]->0 is Rewritten,
        ({
            let q = m[c]->0->Rewritten_0 as int;
            &&& q != c
            &&& 0 <= q < new_store.len()
            &&& new_store[q].change_id == old_store[c].change_id
            &&& new_store[q].author_email == old_store[c].author_email
            &&& new_store[q].description == old_store[c].description
            &&& new_store[q].tree == old_store[c].tree
            &&& new_store[q].parents == remapped(m, old_store[c].parents)
        }),
{
    assert(outcome_ok(policy, backend, old_store, new_store, m, c));
    let a = policy.action_spec(c as CommitId, old_store[c]);
    let source = old_store[c];
    let nps = remapped(m, source.parents);
    match a {
        RewriteAction::Rewrite { sign_behavior, sign_key } => {
            let content = rewrite_content(backend, source, nps, sign_behavior, key_view(sign_key));
            lemma_rewrite_content_fields(backend, source, nps, sign_behavior, key_view(sign_key));
            if m[c] == Option::Some(RewriteOutcome::Unchanged) {
                assert(content == source);
                assert(false);
            }
            assert(m[c]->0 is Rewritten);
        },
        _ => {
            assert(false);
        },
    }
}

/// The sign command's idempotence: when every selected commit is already
/// signed by the invoking identity, its target list is empty, so the
/// transform changes nothing and nothing is reported signed.
pub proof fn lemma_sign_all_mine_changes_nothing(
    store: Seq<CommitData>,
    elems: Seq<CommitId>,
    email: Seq<char>,
)
    requires
        forall|j: int|
            0 <= j < elems.len() ==> (elems[j] as int) < store.len() && store[elems[j] as int].is_signed_by(
                email,
            ),
    ensures
        crate::commands::to_sign_spec(store, elems, email).len() == 0,
    decreases elems.len(),
{
    if elems.len() > 0 {
        lemma_sign_all_mine_changes_nothing(store, elems.drop_last(), email);
        assert(elems.last() == elems[elems.len() - 1]);
    }
}

/// A transform that processed nothing reports nothing: the collected
/// result list of any command over it is empty.
pub proof fn lemma_nothing_processed_reports_nothing(
    m: Seq<Option<RewriteOutcome>>,
    targets: Seq<CommitId>,
    k: nat,
)
    requires
        forall|c: int| 0 <= c < k ==> m[c] is None,
    ensures
        crate::commands::collected_upto(m, targets, k).len() == 0,
    decreases k,
{
    if k > 0 {
        lemma_nothing_processed_reports_nothing(m, targets, (k - 1) as nat);
    }
}

/// When every parent maps to a single id, remapping keeps the list's
/// length and maps each position through its parent's replacement.
proof fn lemma_remapped_singletons(m: Seq<Option<RewriteOutcome>>, parents: Seq<CommitId>)
    requires
        forall|k: int| 0 <= k < parents.len() ==> replacement(m, parents[k]).len() == 1,
    ensures
        remapped(m, parents).len() == parents.len(),
        forall|k: int|
            0 <= k < parents.len() ==> remapped(m, parents)[k] == replacement(m, parents[k])[0],
    decreases parents.len(),
{
    if parents.len() > 0 {
        lemma_remapped_singletons(m, parents.drop_last());
        let front = remapped(m, parents.drop_last());
        let rep = replacement(m, parents.last());
        assert(parents.last() == parents[parents.len() - 1]);
        assert forall|k: int|
            0 <= k < parents.len() implies remapped(m, parents)[k] == replacement(
            m,
            parents[k],
        )[0] by {
            assert(remapped(m, parents) == front + rep);
            if k < parents.len() - 1 {
                assert(parents.drop_last()[k] == parents[k]);
                assert(remapped(m, parents)[k] == front[k]);
            } else {
                assert(remapped(m, parents)[k] == rep[0]);
            }
        }
    }
}

/// Rewrites propagate down the graph: a processed commit one of whose
/// parents was rewritten to a different single id cannot keep its parent
/// list, so — provided every parent maps to a single id — it is itself
/// rewritten to a new id, preserving its change id and authored content.
pub proof fn lemma_parent_rewrite_propagates<P: RewritePolicy, B: SigningBackend>(
    policy: P,
    backend: B,
    old_store: Seq<CommitData>,
    old_vis: Seq<bool>,
    targets: Seq<CommitId>,
    m: Seq<Option<RewriteOutcome>>,
    new_store: Seq<CommitData>,
    new_vis: Seq<bool>,
    c: int,
    k0: int,
)
    requires
        transform_post(policy, backend, old_store, old_vis, targets, m, new_store, new_vis),
        0 <= c < m.len(),
        m[c] is Some,
        policy.action_spec(c as CommitId, old_store[c]) is Rewrite,
        forall|k: int|
            0 <= k < old_store[c].parents.len() ==> replacement(
                m,
                old_store[c].parents[k],
            ).len() == 1,
        0 <= k0 < old_store[c].parents.len(),
        replacement(m, old_store[c].parents[k0]) != seq![old_store[c].parents[k0]],
    ensures
        m[c] is Some && m[c]->0 is Rewritten,
        ({
            let q = m[c]->0->Rewritten_0 as int;
            &&& q != c
            &&& 0 <= q < new_store.len()
            &&& new_store[q].change_id == old_store[c].change_id
            &&& new_store[q].author_email == old_store[c].author_email
            &&& new_store[q].description == old_store[c].description
            &&& new_store[q].tree == old_store[c].tree
        }),
{
    let parents = old_store[c].parents;
    lemma_remapped_singletons(m, parents);
    if remapped(m, parents) == parents {
        assert(remapped(m, parents)[k0] == parents[k0]);
        assert(replacement(m, parents[k0])[0] == parents[k0]);
        assert(replacement(m, parents[k0]) =~= seq![parents[k0]]);
        assert(false);
    }
    lemma_changed_parents_rewrites(
        policy,
        backend,
        old_store,
        old_vis,
        targets,
        m,
        new_store,
        new_vis,
        c,
    );
}

/// Idempotence of signing: a transform whose targets are the sign
/// command's selection, at a moment when the invoking identity has already
/// signed every selected commit, changes no commit id, no visibility, and
/// reports zero signed commits.
pub proof fn lemma_sign_already_mine_is_noop<P: RewritePolicy, B: SigningBackend>(
    policy: P,
    backend: B,
    old_store: Seq<CommitData>,
    old_vis: Seq<bool>,
    elems: Seq<CommitId>,
    email: Seq<char>,
    targets: Seq<CommitId>,
    m: Seq<Option<RewriteOutcome>>,
    new_store: Seq<CommitData>,
    new_vis: Seq<bool>,
)
    requires
        transform_post(policy, backend, old_store, old_vis, targets, m, new_store, new_vis),
        old_vis.len() == old_store.len(),
        forall|i: int| 0 <= i < old_store.len() ==> parents_below(#[trigger] old_store[i], i),
        targets == crate::commands::to_sign_spec(old_store, elems, email),
        forall|j: int|
            0 <= j < elems.len() ==> (elems[j] as int) < old_store.len() && store_signed_by(
                old_store,
                elems[j],
                email,
            ),
    ensures
        new_store == old_store,
        new_vis == old_vis,
        crate::commands::collected_upto(m, targets, old_store.len()).len() == 0,
{
    lemma_sign_all_mine_changes_nothing(old_store, elems, email);
    lemma_empty_targets_zero_deltas(
        policy,
        backend,
        old_store,
        old_vis,
        targets,
        m,
        new_store,
        new_vis,
    );
    lemma_nothing_processed_reports_nothing(m, targets, old_store.len());
}

/// The commit at `id` is signed by the identity with this email.
pub open spec fn store_signed_by(store: Seq<CommitData>, id: CommitId, email: Seq<char>) -> bool {
    store[id as int].is_signed_by(email)
}

/// Two transforms from one starting graph that each rewrite the same
/// commit keep both results: each result is distinct from the original
/// commit, and both share the original's change id — structural
/// divergence, with neither result dropped.
pub proof fn lemma_divergent_rewrites<Pa: RewritePolicy, Pb: RewritePolicy, B: SigningBackend>(
    policy1: Pa,
    policy2: Pb,
    backend: B,
    old_store: Seq<CommitData>,
    old_vis: Seq<bool>,
    targets1: Seq<CommitId>,
    targets2: Seq<CommitId>,
    m1: Seq<Option<RewriteOutcome>>,
    m2: Seq<Option<RewriteOutcome>>,
    store1: Seq<CommitData>,
    vis1: Seq<bool>,
    store2: Seq<CommitData>,
    vis2: Seq<bool>,
    d: int,
)
    requires
        transform_post(policy1, backend, old_store, old_vis, targets1, m1, store1, vis1),
        transform_post(policy2, backend, old_store, old_vis, targets2, m2, store2, vis2),
        0 <= d < old_store.len(),
        m1[d] is Some && m1[d]->0 is Rewritten,
        m2[d] is Some && m2[d]->0 is Rewritten,
    ensures
        ({
            let q1 = m1[d]->0->Rewritten_0 as int;
            let q2 = m2[d]->0->Rewritten_0 as int;
            &&& 0 <= q1 < store1.len()
            &&& 0 <= q2 < store2.len()
            &&& store1[q1].change_id == old_store[d].change_id
            &&& store2[q2].change_id == old_store[d].change_id
            &&& store1[q1] != old_store[d]
            &&& store2[q2] != old_store[d]
        }),
{
    assert(outcome_ok(policy1, backend, old_store, store1, m1, d));
    assert(outcome_ok(policy2, backend, old_store, store2, m2, d));
    let source = old_store[d];
    let a1 = policy1.action_spec(d as CommitId, source);
    match a1 {
        RewriteAction::Rewrite { sign_behavior, sign_key } => {
            lemma_rewrite_content_fields(
                backend,
                source,
                remapped(m1, source.parents),
                sign_behavior,
                key_view(sign_key),
            );
        },
        _ => {
            assert(false);
        },
    }
    let a2 = policy2.action_spec(d as CommitId, source);
    match a2 {
        RewriteAction::Rewrite { sign_behavior, sign_key } => {
            lemma_rewrite_content_fields(
                backend,
                source,
                remapped(m2, source.parents),
                sign_behavior,
                key_view(sign_key),
            );
        },
        _ => {
            assert(false);
        },
    }
}

/// Signing a commit and then dropping the signature restores the
/// signature field to empty while keeping the change id and the authored
/// content; with the parents mapped back to the original's, the content is
/// exactly the original unsigned commit — which, in a content-addressed
/// store, receives exactly the original id again.
pub proof fn lemma_sign_unsign_roundtrip<B: SigningBackend>(
    backend: B,
    source: CommitData,
    nps1: Seq<CommitId>,
    nps2: Seq<CommitId>,
    key: Option<Seq<char>>,
)
    ensures
        ({
            let signed = rewrite_content(backend, source, nps1, SignBehavior::Own, key);
            let unsigned = rewrite_content(
                backend,
                signed,
                nps2,
                SignBehavior::Drop,
                Option::None,
            );
            &&& signed.signature is Some
            &&& unsigned.signature is None
            &&& unsigned.change_id == source.change_id
            &&& unsigned.author_email == source.author_email
            &&& unsigned.description == source.description
            &&& unsigned.tree == source.tree
            &&& (nps2 == source.parents && source.signature is None ==> unsigned == source)
        }),
{
    let signed = rewrite_content(backend, source, nps1, SignBehavior::Own, key);
    let unsigned = rewrite_content(backend, signed, nps2, SignBehavior::Drop, Option::None);
    if nps2 == source.parents && source.signature is None {
        assert(unsigned =~= source);
    }
}

} // verus!
