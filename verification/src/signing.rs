//! The pluggable cryptographic-signature capability.
//!
//! A signing backend turns a canonical payload (every commit field except
//! the signature itself) and an optional key into a signature, and checks a
//! signature against a payload. Implementations are interchangeable; the
//! deterministic test backend below serves engine verification.

use vstd::prelude::*;
use crate::commit::Commit;
use crate::commit::CommitData;
use crate::commit::Signature;
use crate::commit::SignatureData;
use crate::commit::VerifyStatus;

verus! {

/// Failure of a signing backend: fatal to the write that asked for the
/// signature, aborting the whole transform.
#[derive(Clone, Copy, Debug, PartialEq, Eq, Structural)]
pub enum SignError {
    /// No key was given and the backend has no default key.
    KeyNotFound,
}

/// The value of an optional key.
pub open spec fn key_view(k: Option<String>) -> Option<Seq<char>> {
    match k {
        Option::None => Option::None,
        Option::Some(s) => Option::Some(s@),
    }
}

/// A pluggable signing backend. `sign_ok` says on which inputs signing
/// succeeds and `sign_data` what signature it then produces, so that
/// callers' contracts can speak of the outcome; `verify_data` is the
/// advisory status `verify` reports for a payload and signature.
pub trait SigningBackend: Sized {
    spec fn sign_ok(&self, payload: CommitData, key: Option<Seq<char>>) -> bool;

    spec fn sign_data(&self, payload: CommitData, key: Option<Seq<char>>) -> SignatureData;

    spec fn verify_data(&self, payload: CommitData, sig: SignatureData) -> VerifyStatus;

    /// Produce a signature for the payload, with the given key or the
    /// backend's default.
    fn sign(&self, payload: &Commit, key: &Option<String>) -> (r: Result<Signature, SignError>)
        ensures
            r is Ok <==> self.sign_ok(payload@, key_view(*key)),
            r matches Ok(s) ==> s@ == self.sign_data(payload@, key_view(*key)),
    ;

    /// Check a signature against a payload; the result is advisory and
    /// never mutates the commit.
    fn verify(&self, payload: &Commit, sig: &Signature) -> (st: VerifyStatus)
        ensures
            st == self.verify_data(payload@, sig@),
    ;
}

/// Deterministic test backend: signing with key `k` attaches a signature
/// naming this backend and `k`, already verified good; verification accepts
/// exactly the signatures this backend produces.
pub struct TestBackend {
    /// Key used when a caller supplies none; signing fails without any key.
    pub default_key: Option<String>,
}

impl TestBackend {
    /// The key the backend resolves for a request: the caller's, or the
    /// default.
    pub open spec fn resolved_key(&self, key: Option<Seq<char>>) -> Seq<char> {
        match key {
            Option::Some(k) => k,
            Option::None => match self.default_key {
                Option::Some(d) => d@,
                Option::None => Seq::<char>::empty(),
            },
        }
    }
}

impl SigningBackend for TestBackend {
    open spec fn sign_ok(&self, payload: CommitData, key: Option<Seq<char>>) -> bool {
        key is Some || self.default_key is Some
    }

    open spec fn sign_data(&self, payload: CommitData, key: Option<Seq<char>>) -> SignatureData {
        SignatureData { backend: "test"@, key: self.resolved_key(key), status: VerifyStatus::Good }
    }

    open spec fn verify_data(&self, payload: CommitData, sig: SignatureData) -> VerifyStatus {
        if sig == (SignatureData { backend: "test"@, key: sig.key, status: VerifyStatus::Good }) {
            VerifyStatus::Good
        } else {
            VerifyStatus::Bad
        }
    }

    fn sign(&self, payload: &Commit, key: &Option<String>) -> (r: Result<Signature, SignError>)
        ensures
            r is Ok <==> self.sign_ok(payload@, key_view(*key)),
            r matches Ok(s) ==> s@ == self.sign_data(payload@, key_view(*key)),
    {
        let k: String = match key {
            Option::Some(k) => k.clone(),
            Option::None => match &self.default_key {
                Option::Some(d) => d.clone(),
                Option::None => {
                    return Result::Err(SignError::KeyNotFound);
                },
            },
        };
        let s = Signature { backend: "test".to_owned(), key: k, status: VerifyStatus::Good };
        proof {
            assert(s@ =~= self.sign_data(payload@, key_view(*key)));
        }
        Result::Ok(s)
    }

    fn verify(&self, payload: &Commit, sig: &Signature) -> (st: VerifyStatus)
        ensures
            st == self.verify_data(payload@, sig@),
    {
        let name: String = "test".to_owned();
        let good = sig.backend == name && matches!(sig.status, VerifyStatus::Good);
        proof {
            if good {
                assert(sig@ =~= (SignatureData {
                    backend: "test"@,
                    key: sig@.key,
                    status: VerifyStatus::Good,
                }));
            }
        }
        if good {
            VerifyStatus::Good
        } else {
            VerifyStatus::Bad
        }
    }
}

} // verus!
