//! The commit builder: a staged, mutable draft of a new commit derived from
//! an existing one. Fields are selectively overridden, then `write` resolves
//! the sign behavior — keep the source signature, sign afresh through the
//! backend, or drop it — and persists the finished content.

use vstd::prelude::*;
use crate::commit::Commit;
use crate::commit::CommitData;
use crate::commit::CommitId;
use crate::commit::SignBehavior;
use crate::commit::Signature;
use crate::commit::SignatureData;
use crate::commit::clone_parents;
use crate::repo::MutableRepo;
use crate::signing::SignError;
use crate::signing::SigningBackend;
use crate::signing::key_view;
use crate::store::parents_below;

verus! {

pub struct CommitBuilder {
    pub parents: Vec<CommitId>,
    pub change_id: u64,
    pub author_email: String,
    pub description: String,
    pub tree: u64,
    pub source_signature: Option<Signature>,
    pub sign_behavior: SignBehavior,
    pub sign_key: Option<String>,
}

impl CommitBuilder {
    /// The draft's fields with no signature: the canonical signing payload.
    pub open spec fn base(self) -> CommitData {
        CommitData {
            parents: self.parents@,
            change_id: self.change_id,
            author_email: self.author_email@,
            description: self.description@,
            tree: self.tree,
            signature: Option::None,
        }
    }

    /// The value of the signature copied from the source commit.
    pub open spec fn kept_signature(self) -> Option<SignatureData> {
        match self.source_signature {
            Option::None => Option::None,
            Option::Some(s) => Option::Some(s@),
        }
    }

    /// Whether `write` succeeds: always, unless the draft asks the backend
    /// for a fresh signature and the backend refuses.
    pub open spec fn content_ok<B: SigningBackend>(self, backend: B) -> bool {
        !(self.sign_behavior is Own) || backend.sign_ok(self.base(), key_view(self.sign_key))
    }

    /// The finished content `write` persists: the draft's fields, with the
    /// signature the sign behavior resolves to.
    pub open spec fn content_data<B: SigningBackend>(self, backend: B) -> CommitData {
        match self.sign_behavior {
            SignBehavior::Keep => CommitData { signature: self.kept_signature(), ..self.base() },
            SignBehavior::Drop => self.base(),
            SignBehavior::Own => CommitData {
                signature: Option::Some(backend.sign_data(self.base(), key_view(self.sign_key))),
                ..self.base()
            },
        }
    }

    /// Start a draft from an existing commit: all fields copied, the sign
    /// behavior defaulting to keeping the source signature.
    pub fn from_commit(c: &Commit) -> (b: CommitBuilder)
        ensures
            b.base() == c@.payload(),
            b.kept_signature() == c@.signature,
            b.sign_behavior is Keep,
            b.sign_key is None,
    {
        let b = CommitBuilder {
            parents: clone_parents(&c.parents),
            change_id: c.change_id,
            author_email: c.author_email.clone(),
            description: c.description.clone(),
            tree: c.tree,
            source_signature: crate::commit::clone_signature_opt(&c.signature),
            sign_behavior: SignBehavior::Keep,
            sign_key: Option::None,
        };
        proof {
            assert(b.base() =~= c@.payload());
        }
        b
    }

    pub fn set_parents(self, parents: Vec<CommitId>) -> (b: CommitBuilder)
        ensures
            b == (CommitBuilder { parents, ..self }),
    {
        CommitBuilder { parents, ..self }
    }

    pub fn set_sign_behavior(self, sign_behavior: SignBehavior) -> (b: CommitBuilder)
        ensures
            b == (CommitBuilder { sign_behavior, ..self }),
    {
        CommitBuilder { sign_behavior, ..self }
    }

    pub fn set_sign_key(self, sign_key: Option<String>) -> (b: CommitBuilder)
        ensures
            b == (CommitBuilder { sign_key, ..self }),
    {
        CommitBuilder { sign_key, ..self }
    }

    /// Resolve the sign behavior and persist the finished content. The
    /// commit id comes back content-addressed: an equal content already in
    /// the store keeps its id, so writing identical field values twice
    /// yields the same id. On a backend failure nothing is written.
    pub fn write<B: SigningBackend>(self, repo: &mut MutableRepo, backend: &B) -> (r: Result<
        CommitId,
        SignError,
    >)
        requires
            old(repo).wf(),
            parents_below(self.base(), old(repo).store@.len() as int),
        ensures
            final(repo).wf(),
            r is Ok <==> self.content_ok(*backend),
            forall|i: int|
                0 <= i < old(repo).store@.len() ==> final(repo).store@[i] == old(repo).store@[i],
            forall|i: int|
                0 <= i < old(repo).visible@.len()
                    ==> final(repo).visible@[i] == old(repo).visible@[i],
            r is Err ==> *final(repo) == *old(repo),
            r matches Ok(id) ==> {
                let content = self.content_data(*backend);
                &&& id < final(repo).store@.len()
                &&& final(repo).store@[id as int] == content
                &&& ((exists|i: int|
                    0 <= i < old(repo).store@.len() && old(repo).store@[i] == content) ==> {
                    &&& final(repo).store@ == old(repo).store@
                    &&& final(repo).visible@ == old(repo).visible@
                    &&& id < old(repo).store@.len()
                })
                &&& (!(exists|i: int|
                    0 <= i < old(repo).store@.len() && old(repo).store@[i] == content) ==> {
                    &&& id == old(repo).store@.len()
                    &&& final(repo).store@ == old(repo).store@.push(content)
                    &&& final(repo).visible@ == old(repo).visible@.push(false)
                })
            },
    {
        let payload = Commit {
            parents: self.parents,
            change_id: self.change_id,
            author_email: self.author_email,
            description: self.description,
            tree: self.tree,
            signature: Option::None,
        };
        proof {
            assert(payload@ =~= self.base());
        }
        let signature: Option<Signature> = match self.sign_behavior {
            SignBehavior::Keep => self.source_signature,
            SignBehavior::Drop => Option::None,
            SignBehavior::Own => match backend.sign(&payload, &self.sign_key) {
                Result::Ok(s) => Option::Some(s),
                Result::Err(e) => {
                    return Result::Err(e);
                },
            },
        };
        let content = Commit { signature, ..payload };
        proof {
            assert(content@ =~= self.content_data(*backend));
        }
        Result::Ok(repo.write_commit(content))
    }
}

} // verus!
