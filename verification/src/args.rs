//! The arguments of the command layer, as plain values. The surrounding
//! program parses the command line into these; revision strings are
//! resolved to commit ids by the caller's query layer before the library
//! runs.

use vstd::prelude::*;

verus! {

/// Cryptographically sign a revision.
pub struct SignArgs {
    /// What key to use, depends on the configured signing backend.
    pub key: Option<String>,
    /// What revision(s) to sign.
    pub revisions: Vec<String>,
}

/// Drop a cryptographic signature.
pub struct UnsignArgs {
    /// What revision(s) to unsign.
    pub revisions: Vec<String>,
}

/// Set the URL of a Git remote.
pub struct GitRemoteSetUrlArgs {
    /// The remote's name.
    pub remote: String,
    /// The desired url for `remote`.
    pub url: String,
}

} // verus!
