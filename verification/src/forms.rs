//! The plain values the web layer hands in: the pasted-token login form,
//! the OAuth callback's query parameters, and the delete form. The token
//! and the OAuth code are opaque here; only the delete target is ever
//! interpreted (see the repository resolution).

use vstd::prelude::*;

verus! {

/// The manual login form: an opaque bearer token, pasted by the user.
#[derive(Clone, Debug, PartialEq, Eq)]
pub struct LoginParams {
    pub token: Vec<u8>,
}

/// The OAuth callback's query: the one-time code to exchange for a token,
/// and the anti-forgery state echoed back.
#[derive(Clone, Debug, PartialEq, Eq)]
pub struct AuthCallbackParams {
    pub code: Vec<u8>,
    pub state: Vec<u8>,
}

/// The delete form: the target repository, the stored path, and the
/// content hash of the file's current state, which the remote demands as
/// its optimistic-concurrency token and which is passed through unchanged.
#[derive(Clone, Debug, PartialEq, Eq)]
pub struct DeleteParams {
    pub repo: Vec<u8>,
    pub path: Vec<u8>,
    pub sha: Vec<u8>,
}

} // verus!
