//! Immutable commit values and their cryptographic-signature attachment.

use vstd::prelude::*;

verus! {

/// Identifier of a commit: the index of its content in the append-only store.
/// The store deduplicates contents, so an id determines the content and no
/// two distinct contents share an id (content addressing).
pub type CommitId = usize;

/// Cached result of verifying a signature.
#[derive(Clone, Copy, Debug, PartialEq, Eq, Structural)]
pub enum VerifyStatus {
    Good,
    Bad,
    Unknown,
    Unverifiable,
}

/// Per-write instruction governing signature attachment, consumed exactly
/// once when a commit builder is written.
#[derive(Clone, Copy, Debug, PartialEq, Eq, Structural)]
pub enum SignBehavior {
    /// Copy forward whatever signature the source commit had.
    Keep,
    /// Sign with the invoking identity's key via the signing backend.
    Own,
    /// Finalize with no signature, discarding any prior one.
    Drop,
}

/// Signature attached to a commit: the backend that produced it, the key it
/// was produced with, and the cached verification status.
#[derive(Clone, Debug)]
pub struct Signature {
    pub backend: String,
    pub key: String,
    pub status: VerifyStatus,
}

/// Mathematical value of a `Signature`.
#[verifier::ext_equal]
pub struct SignatureData {
    pub backend: Seq<char>,
    pub key: Seq<char>,
    pub status: VerifyStatus,
}

impl View for Signature {
    type V = SignatureData;

    open spec fn view(&self) -> SignatureData {
        SignatureData { backend: self.backend@, key: self.key@, status: self.status }
    }
}

/// An immutable commit: parent pointers, the stable change identity, the
/// authored content, and an optional signature.
#[derive(Clone, Debug)]
pub struct Commit {
    pub parents: Vec<CommitId>,
    pub change_id: u64,
    pub author_email: String,
    pub description: String,
    pub tree: u64,
    pub signature: Option<Signature>,
}

/// Mathematical value of a `Commit`.
#[verifier::ext_equal]
pub struct CommitData {
    pub parents: Seq<CommitId>,
    pub change_id: u64,
    pub author_email: Seq<char>,
    pub description: Seq<char>,
    pub tree: u64,
    pub signature: Option<SignatureData>,
}

impl View for Commit {
    type V = CommitData;

    open spec fn view(&self) -> CommitData {
        CommitData {
            parents: self.parents@,
            change_id: self.change_id,
            author_email: self.author_email@,
            description: self.description@,
            tree: self.tree,
            signature: match self.signature {
                Option::None => Option::None,
                Option::Some(s) => Option::Some(s@),
            },
        }
    }
}

impl CommitData {
    /// The canonical signing payload: every field of the commit except the
    /// signature itself.
    pub open spec fn payload(self) -> CommitData {
        CommitData { signature: Option::None, ..self }
    }

    /// A commit is signed by the identity with the given email iff it
    /// carries a signature whose cached status is good and its author email
    /// matches that identity's email.
    pub open spec fn is_signed_by(self, email: Seq<char>) -> bool {
        &&& self.signature is Some
        &&& self.signature->0.status == VerifyStatus::Good
        &&& self.author_email == email
    }
}

/// Exact equality of two optional signatures, at the level of their values.
pub fn signature_opt_eq(a: &Option<Signature>, b: &Option<Signature>) -> (r: bool)
    ensures
        r <==> (match (a, b) {
            (Option::None, Option::None) => true,
            (Option::Some(x), Option::Some(y)) => x@ == y@,
            _ => false,
        }),
{
    match (a, b) {
        (Option::None, Option::None) => true,
        (Option::Some(x), Option::Some(y)) => {
            let r = x.backend == y.backend && x.key == y.key && x.status == y.status;
            proof {
                if r {
                    assert(x@ =~= y@);
                }
            }
            r
        },
        _ => false,
    }
}

/// Exact equality of two parent lists.
pub fn parents_eq(a: &Vec<CommitId>, b: &Vec<CommitId>) -> (r: bool)
    ensures
        r <==> a@ == b@,
{
    if a.len() != b.len() {
        return false;
    }
    let mut i: usize = 0;
    while i < a.len()
        invariant
            0 <= i <= a@.len(),
            a@.len() == b@.len(),
            forall|j: int| 0 <= j < i ==> a@[j] == b@[j],
        decreases a@.len() - i,
    {
        if a[i] != b[i] {
            return false;
        }
        i += 1;
    }
    proof {
        assert(a@ =~= b@);
    }
    true
}

/// Exact content equality of two commits: same parents, change id, authored
/// content and signature. The store uses this to deduplicate contents.
pub fn commit_eq(a: &Commit, b: &Commit) -> (r: bool)
    ensures
        r <==> a@ == b@,
{
    let r = parents_eq(&a.parents, &b.parents) && a.change_id == b.change_id
        && a.author_email == b.author_email && a.description == b.description
        && a.tree == b.tree && signature_opt_eq(&a.signature, &b.signature);
    proof {
        if r {
            assert(a@ =~= b@);
        }
    }
    r
}

/// A copy of a parent list with the same value.
pub fn clone_parents(v: &Vec<CommitId>) -> (r: Vec<CommitId>)
    ensures
        r@ == v@,
{
    let mut r: Vec<CommitId> = Vec::new();
    let mut i: usize = 0;
    while i < v.len()
        invariant
            0 <= i <= v@.len(),
            r@ == v@.take(i as int),
        decreases v@.len() - i,
    {
        r.push(v[i]);
        proof {
            assert(r@ =~= v@.take(i + 1 as int));
        }
        i += 1;
    }
    proof {
        assert(v@.take(v@.len() as int) =~= v@);
    }
    r
}

/// A copy of an optional signature with the same value.
pub fn clone_signature_opt(s: &Option<Signature>) -> (r: Option<Signature>)
    ensures
        (match (s, r) {
            (Option::None, Option::None) => true,
            (Option::Some(x), Option::Some(y)) => x@ == y@,
            _ => false,
        }),
{
    match s {
        Option::None => Option::None,
        Option::Some(x) => Option::Some(
            Signature { backend: x.backend.clone(), key: x.key.clone(), status: x.status },
        ),
    }
}

/// A copy of a commit with the same value.
pub fn clone_commit(c: &Commit) -> (r: Commit)
    ensures
        r@ == c@,
{
    let r = Commit {
        parents: clone_parents(&c.parents),
        change_id: c.change_id,
        author_email: c.author_email.clone(),
        description: c.description.clone(),
        tree: c.tree,
        signature: clone_signature_opt(&c.signature),
    };
    proof {
        assert(r@ =~= c@);
    }
    r
}

} // verus!
