//! The compute cores of the sign and unsign commands.
//!
//! Each command selects its targets from an insertion-ordered set of commit
//! ids, runs the descendant transform engine with its policy, and reports
//! which commits it touched — the signed (or unsigned) ones in processing
//! order, the foreign-authored ones separately — together with the
//! transaction description the caller records.

use vstd::prelude::*;
use vstd::string::StringExecFns;
use crate::commit::Commit;
use crate::commit::CommitData;
use crate::commit::CommitId;
use crate::commit::SignBehavior;
use crate::repo::MutableRepo;
use crate::rewrite::RewriteAction;
use crate::rewrite::RewriteMap;
use crate::rewrite::RewriteOutcome;
use crate::rewrite::RewritePolicy;
use crate::rewrite::contains_id;
use crate::rewrite::transform_post;
use crate::signing::SignError;
use crate::signing::SigningBackend;
use crate::idset::id_set_elems;
use crate::idset::id_set_ids;

verus! {

/// Whether the commit is signed by the identity with this email: a
/// signature with good cached status on a commit the identity authored.
pub fn is_signed_by(c: &Commit, email: &String) -> (r: bool)
    ensures
        r == c@.is_signed_by(email@),
{
    match &c.signature {
        Option::Some(s) => matches!(s.status, crate::commit::VerifyStatus::Good)
            && c.author_email == *email,
        Option::None => false,
    }
}

/// A copy of an optional key with the same value.
pub fn clone_key(k: &Option<String>) -> (r: Option<String>)
    ensures
        r == *k,
{
    match k {
        Option::None => Option::None,
        Option::Some(s) => Option::Some(s.clone()),
    }
}

/// The policy of the sign command: leave alone what the invoking identity
/// already signed, sign the remaining targets with the chosen key, and
/// reparent every other descendant unchanged.
pub struct SignPolicy {
    pub user_email: String,
    pub key: Option<String>,
    pub targets: Vec<CommitId>,
}

impl RewritePolicy for SignPolicy {
    open spec fn action_spec(&self, id: CommitId, c: CommitData) -> RewriteAction {
        if c.is_signed_by(self.user_email@) {
            RewriteAction::NoOp
        } else if self.targets@.contains(id) {
            RewriteAction::Rewrite { sign_behavior: SignBehavior::Own, sign_key: self.key }
        } else {
            RewriteAction::Rewrite { sign_behavior: SignBehavior::Keep, sign_key: Option::None }
        }
    }

    fn action(&self, id: CommitId, c: &Commit) -> (a: RewriteAction) {
        if is_signed_by(c, &self.user_email) {
            RewriteAction::NoOp
        } else if contains_id(&self.targets, id) {
            RewriteAction::Rewrite {
                sign_behavior: SignBehavior::Own,
                sign_key: clone_key(&self.key),
            }
        } else {
            RewriteAction::Rewrite { sign_behavior: SignBehavior::Keep, sign_key: Option::None }
        }
    }
}

/// The policy of the unsign command: strip the signature of every target,
/// and reparent every other descendant unchanged.
pub struct UnsignPolicy {
    pub targets: Vec<CommitId>,
}

impl RewritePolicy for UnsignPolicy {
    open spec fn action_spec(&self, id: CommitId, c: CommitData) -> RewriteAction {
        if self.targets@.contains(id) {
            RewriteAction::Rewrite { sign_behavior: SignBehavior::Drop, sign_key: Option::None }
        } else {
            RewriteAction::Rewrite { sign_behavior: SignBehavior::Keep, sign_key: Option::None }
        }
    }

    fn action(&self, id: CommitId, c: &Commit) -> (a: RewriteAction) {
        if contains_id(&self.targets, id) {
            RewriteAction::Rewrite { sign_behavior: SignBehavior::Drop, sign_key: Option::None }
        } else {
            RewriteAction::Rewrite { sign_behavior: SignBehavior::Keep, sign_key: Option::None }
        }
    }
}

/// The commit a processed id stands for after the transform: its single
/// replacement, or itself.
pub open spec fn result_id(m: Seq<Option<RewriteOutcome>>, c: int) -> CommitId {
    match m[c] {
        Option::Some(RewriteOutcome::Rewritten(q)) => q,
        _ => c as CommitId,
    }
}

/// The result ids of the processed targets among the first `k` ids, in
/// ascending (processing) order.
pub open spec fn collected_upto(
    m: Seq<Option<RewriteOutcome>>,
    targets: Seq<CommitId>,
    k: nat,
) -> Seq<CommitId>
    decreases k,
{
    if k == 0 {
        Seq::<CommitId>::empty()
    } else {
        let rest = collected_upto(m, targets, (k - 1) as nat);
        if m[k - 1] is Some && targets.contains((k - 1) as CommitId) {
            rest.push(result_id(m, k - 1))
        } else {
            rest
        }
    }
}

/// As `collected_upto`, restricted to commits another identity authored.
pub open spec fn foreign_upto(
    m: Seq<Option<RewriteOutcome>>,
    targets: Seq<CommitId>,
    old_store: Seq<CommitData>,
    email: Seq<char>,
    k: nat,
) -> Seq<CommitId>
    decreases k,
{
    if k == 0 {
        Seq::<CommitId>::empty()
    } else {
        let rest = foreign_upto(m, targets, old_store, email, (k - 1) as nat);
        if m[k - 1] is Some && targets.contains((k - 1) as CommitId) && old_store[k
            - 1].author_email != email {
            rest.push(result_id(m, k - 1))
        } else {
            rest
        }
    }
}

/// The targets the sign command hands the engine: the selected commits that
/// the invoking identity has not already signed, in selection order.
pub open spec fn to_sign_spec(
    store: Seq<CommitData>,
    elems: Seq<CommitId>,
    email: Seq<char>,
) -> Seq<CommitId>
    decreases elems.len(),
{
    if elems.len() == 0 {
        Seq::<CommitId>::empty()
    } else {
        let rest = to_sign_spec(store, elems.drop_last(), email);
        if !store[elems.last() as int].is_signed_by(email) {
            rest.push(elems.last())
        } else {
            rest
        }
    }
}

/// What the sign command did: the rewrite map of its transform, the
/// engine's targets, the commits it signed and, among them, those another
/// identity authored.
pub struct SignOutcome {
    pub map: RewriteMap,
    pub to_sign: Vec<CommitId>,
    pub signed: Vec<CommitId>,
    pub foreign: Vec<CommitId>,
    pub policy: Ghost<SignPolicy>,
}

/// Sign the selected commits with the invoking identity's key and rebase
/// their descendants. Commits already signed by the invoking identity are
/// left untouched; in particular, when every selected commit is, nothing
/// changes at all and nothing is reported signed.
pub fn sign_commits<B: SigningBackend>(
    repo: &mut MutableRepo,
    commits: &indexmap::IndexSet<CommitId, std::collections::hash_map::RandomState>,
    user_email: &String,
    key: &Option<String>,
    backend: &B,
) -> (r: Result<SignOutcome, SignError>)
    requires
        old(repo).wf(),
        forall|j: int|
            0 <= j < id_set_elems(commits).len() ==> (id_set_elems(commits)[j] as int) < old(
                repo,
            ).store@.len(),
    ensures
        final(repo).wf(),
        final(repo).store@.len() >= old(repo).store@.len(),
        forall|i: int|
            0 <= i < old(repo).store@.len() ==> final(repo).store@[i] == old(repo).store@[i],
        r matches Ok(out) ==> {
            let p = out.policy@;
            &&& p.user_email == *user_email
            &&& p.key == *key
            &&& p.targets@ == to_sign_spec(
                old(repo).store@,
                id_set_elems(commits),
                user_email@,
            )
            &&& out.to_sign@ == p.targets@
            &&& transform_post(
                p,
                *backend,
                old(repo).store@,
                old(repo).visible@,
                p.targets@,
                out.map.entries@,
                final(repo).store@,
                final(repo).visible@,
            )
            &&& out.signed@ == collected_upto(
                out.map.entries@,
                p.targets@,
                old(repo).store@.len(),
            )
            &&& out.foreign@ == foreign_upto(
                out.map.entries@,
                p.targets@,
                old(repo).store@,
                user_email@,
                old(repo).store@.len(),
            )
        },
        (forall|j: int|
            0 <= j < id_set_elems(commits).len() ==> old(repo).store@[#[trigger] id_set_elems(
                commits,
            )[j] as int].is_signed_by(user_email@)) ==> {
            &&& r is Ok
            &&& final(repo).store@ == old(repo).store@
            &&& final(repo).visible@ == old(repo).visible@
            &&& (r matches Ok(out) ==> out.signed@.len() == 0)
        },
{
    let ghost old_store = old(repo).store@;
    let ghost old_vis = old(repo).visible@;
    let all = id_set_ids(commits);
    let mut to_sign: Vec<CommitId> = Vec::new();
    let mut i: usize = 0;
    proof {
        assert(all@.take(0) =~= Seq::<CommitId>::empty());
    }
    while i < all.len()
        invariant
            repo == old(repo),
            repo.wf(),
            all@ == id_set_elems(commits),
            forall|j: int| 0 <= j < all@.len() ==> (all@[j] as int) < repo.store@.len(),
            0 <= i <= all@.len(),
            to_sign@ == to_sign_spec(repo.store@, all@.take(i as int), user_email@),
            forall|j: int| 0 <= j < to_sign@.len() ==> (to_sign@[j] as int) < repo.store@.len(),
        decreases all@.len() - i,
    {
        let id = all[i];
        if !is_signed_by(repo.read_commit(id), user_email) {
            to_sign.push(id);
        }
        proof {
            assert(all@.take(i + 1).drop_last() =~= all@.take(i as int));
            assert(all@.take(i + 1).last() == all@[i as int]);
        }
        i += 1;
    }
    proof {
        assert(all@.take(all@.len() as int) =~= all@);
    }
    let policy = SignPolicy {
        user_email: user_email.clone(),
        key: clone_key(key),
        targets: to_sign,
    };
    let map = match repo.transform_descendants(&policy.targets, &policy, backend) {
        Result::Err(e) => {
            proof {
                if forall|j: int|
                    0 <= j < id_set_elems(commits).len() ==> old_store[#[trigger] id_set_elems(
                        commits,
                    )[j] as int].is_signed_by(user_email@) {
                    crate::laws::lemma_sign_all_mine_changes_nothing(
                        old_store,
                        all@,
                        user_email@,
                    );
                    let (id, cd) = choose|id: CommitId, cd: CommitData|
                        (#[trigger] policy.action_spec(id, cd)) matches RewriteAction::Rewrite {
                            sign_behavior: SignBehavior::Own,
                            ..
                        };
                    assert(policy.targets@.len() == 0);
                    assert(false);
                }
            }
            return Result::Err(e);
        },
        Result::Ok(map) => map,
    };
    let ghost ts = policy.targets@;
    let n = map.entries.len();
    let mut signed: Vec<CommitId> = Vec::new();
    let mut foreign: Vec<CommitId> = Vec::new();
    let mut c: usize = 0;
    while c < n
        invariant
            repo.wf(),
            n == map.entries@.len(),
            n == old_store.len(),
            repo.store@.len() >= n,
            forall|i2: int| 0 <= i2 < n ==> repo.store@[i2] == old_store[i2],
            0 <= c <= n,
            ts == policy.targets@,
            signed@ == collected_upto(map.entries@, ts, c as nat),
            foreign@ == foreign_upto(map.entries@, ts, old_store, user_email@, c as nat),
        decreases n - c,
    {
        let has_entry = map.entries[c].is_some();
        let in_targets = contains_id(&policy.targets, c);
        if has_entry && in_targets {
            let rid: CommitId = match &map.entries[c] {
                Option::Some(RewriteOutcome::Rewritten(q)) => *q,
                _ => c,
            };
            signed.push(rid);
            if !(repo.read_commit(c).author_email == *user_email) {
                foreign.push(rid);
            }
            proof {
                assert(repo.store@[c as int] == old_store[c as int]);
            }
        }
        proof {
            let m = map.entries@;
            assert(collected_upto(m, ts, (c + 1) as nat) == (if m[c as int] is Some
                && ts.contains(c as CommitId) {
                collected_upto(m, ts, c as nat).push(result_id(m, c as int))
            } else {
                collected_upto(m, ts, c as nat)
            }));
            assert(foreign_upto(m, ts, old_store, user_email@, (c + 1) as nat) == (if m[c as int]
                is Some && ts.contains(c as CommitId) && old_store[c as int].author_email
                != user_email@ {
                foreign_upto(m, ts, old_store, user_email@, c as nat).push(result_id(m, c as int))
            } else {
                foreign_upto(m, ts, old_store, user_email@, c as nat)
            }));
        }
        c += 1;
    }
    let to_sign_out = crate::commit::clone_parents(&policy.targets);
    proof {
        assert(to_sign_out@ == ts);
        if forall|j: int|
            0 <= j < id_set_elems(commits).len() ==> old_store[#[trigger] id_set_elems(
                commits,
            )[j] as int].is_signed_by(user_email@) {
            crate::laws::lemma_sign_all_mine_changes_nothing(old_store, all@, user_email@);
            assert forall|i2: int|
                0 <= i2 < old_store.len() implies crate::store::parents_below(
                #[trigger] old_store[i2],
                i2,
            ) by {
                assert(old(repo).store@[i2] == old_store[i2]);
            }
            crate::laws::lemma_empty_targets_zero_deltas(
                policy,
                *backend,
                old_store,
                old_vis,
                ts,
                map.entries@,
                repo.store@,
                repo.visible@,
            );
            crate::laws::lemma_nothing_processed_reports_nothing(
                map.entries@,
                ts,
                old_store.len(),
            );
        }
    }
    Result::Ok(SignOutcome {
        map,
        to_sign: to_sign_out,
        signed,
        foreign,
        policy: Ghost(policy),
    })
}

/// What the unsign command did: the rewrite map of its transform and the
/// commits whose signature it stripped.
pub struct UnsignOutcome {
    pub map: RewriteMap,
    pub unsigned: Vec<CommitId>,
    pub policy: Ghost<UnsignPolicy>,
}

/// Strip the signature of every selected commit and rebase their
/// descendants. Unsigning never consults the signing backend, so it
/// always succeeds.
pub fn unsign_commits<B: SigningBackend>(
    repo: &mut MutableRepo,
    commits: &indexmap::IndexSet<CommitId, std::collections::hash_map::RandomState>,
    backend: &B,
) -> (r: Result<UnsignOutcome, SignError>)
    requires
        old(repo).wf(),
        forall|j: int|
            0 <= j < id_set_elems(commits).len() ==> (id_set_elems(commits)[j] as int) < old(
                repo,
            ).store@.len(),
    ensures
        final(repo).wf(),
        final(repo).store@.len() >= old(repo).store@.len(),
        forall|i: int|
            0 <= i < old(repo).store@.len() ==> final(repo).store@[i] == old(repo).store@[i],
        r is Ok,
        r matches Ok(out) ==> {
            let p = out.policy@;
            &&& p.targets@ == id_set_elems(commits)
            &&& transform_post(
                p,
                *backend,
                old(repo).store@,
                old(repo).visible@,
                p.targets@,
                out.map.entries@,
                final(repo).store@,
                final(repo).visible@,
            )
            &&& out.unsigned@ == collected_upto(
                out.map.entries@,
                p.targets@,
                old(repo).store@.len(),
            )
        },
{
    let ghost old_store = old(repo).store@;
    let policy = UnsignPolicy { targets: id_set_ids(commits) };
    let map = match repo.transform_descendants(&policy.targets, &policy, backend) {
        Result::Err(e) => {
            proof {
                let (id, cd) = choose|id: CommitId, cd: CommitData|
                    (#[trigger] policy.action_spec(id, cd)) matches RewriteAction::Rewrite {
                        sign_behavior: SignBehavior::Own,
                        ..
                    };
                assert(!(policy.action_spec(id, cd) matches RewriteAction::Rewrite {
                    sign_behavior: SignBehavior::Own,
                    ..
                }));
            }
            return Result::Err(e);
        },
        Result::Ok(map) => map,
    };
    let ghost ts = policy.targets@;
    let n = map.entries.len();
    let mut unsigned: Vec<CommitId> = Vec::new();
    let mut c: usize = 0;
    while c < n
        invariant
            n == map.entries@.len(),
            0 <= c <= n,
            ts == policy.targets@,
            unsigned@ == collected_upto(map.entries@, ts, c as nat),
        decreases n - c,
    {
        let has_entry = map.entries[c].is_some();
        let in_targets = contains_id(&policy.targets, c);
        if has_entry && in_targets {
            let rid: CommitId = match &map.entries[c] {
                Option::Some(RewriteOutcome::Rewritten(q)) => *q,
                _ => c,
            };
            unsigned.push(rid);
        }
        proof {
            let m = map.entries@;
            assert(collected_upto(m, ts, (c + 1) as nat) == (if m[c as int] is Some
                && ts.contains(c as CommitId) {
                collected_upto(m, ts, c as nat).push(result_id(m, c as int))
            } else {
                collected_upto(m, ts, c as nat)
            }));
        }
        c += 1;
    }
    Result::Ok(UnsignOutcome { map, unsigned, policy: Ghost(policy) })
}

/// The digits an id is rendered with.
pub uninterp spec fn dec_str(n: usize) -> Seq<char>;

/// Relies on core's `Display` formatting of `usize`: the decimal digits of
/// the value, a pure function of it.
#[verifier::external_body]
fn usize_string(n: usize) -> (r: String)
    ensures
        r@ == dec_str(n),
{
    format!("{n}")
}

/// The description the sign command records: nothing for an empty result,
/// the commit for a single one, and the first commit with a count for more.
pub open spec fn sign_description_spec(signed: Seq<CommitId>) -> Seq<char> {
    if signed.len() == 0 {
        Seq::<char>::empty()
    } else if signed.len() == 1 {
        "sign commit "@ + dec_str(signed[0])
    } else {
        "sign commit "@ + dec_str(signed[0]) + " and "@ + dec_str((signed.len() - 1) as usize)
            + " more"@
    }
}

pub fn sign_description(signed: &Vec<CommitId>) -> (r: String)
    ensures
        r@ == sign_description_spec(signed@),
{
    if signed.len() == 0 {
        String::new()
    } else {
        let mut s = "sign commit ".to_owned();
        s.append(usize_string(signed[0]).as_str());
        if signed.len() > 1 {
            s.append(" and ");
            s.append(usize_string(signed.len() - 1).as_str());
            s.append(" more");
        }
        s
    }
}

/// The description the unsign command records, shaped as the sign one.
pub open spec fn unsign_description_spec(unsigned: Seq<CommitId>) -> Seq<char> {
    if unsigned.len() == 0 {
        Seq::<char>::empty()
    } else if unsigned.len() == 1 {
        "unsign commit "@ + dec_str(unsigned[0])
    } else {
        "unsign commit "@ + dec_str(unsigned[0]) + " and "@ + dec_str(
            (unsigned.len() - 1) as usize,
        ) + " more"@
    }
}

pub fn unsign_description(unsigned: &Vec<CommitId>) -> (r: String)
    ensures
        r@ == unsign_description_spec(unsigned@),
{
    if unsigned.len() == 0 {
        String::new()
    } else {
        let mut s = "unsign commit ".to_owned();
        s.append(usize_string(unsigned[0]).as_str());
        if unsigned.len() > 1 {
            s.append(" and ");
            s.append(usize_string(unsigned.len() - 1).as_str());
            s.append(" more");
        }
        s
    }
}

} // verus!
