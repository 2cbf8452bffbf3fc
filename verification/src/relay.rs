//! The session/result relay: the one-shot key/value pairs that carry the
//! session token and a just-finished upload's outcome (its links, or its
//! one-line error) across the redirect-after-post boundary. Only the keys
//! and the result's field names are fixed here; the transport itself — a
//! read-once cookie — lives outside the library.

use vstd::prelude::*;

verus! {

/// The key the session's bearer token travels under.
pub fn session_token_key() -> (r: &'static str)
    ensures
        r@ == "gh_token"@,
{
    "gh_token"
}

/// The key a successful upload's links travel under, read once and cleared.
pub fn upload_result_key() -> (r: &'static str)
    ensures
        r@ == "upload_result"@,
{
    "upload_result"
}

/// The key a failed upload's message travels under, read once and cleared.
pub fn upload_error_key() -> (r: &'static str)
    ensures
        r@ == "upload_error"@,
{
    "upload_error"
}

/// The relayed result's field holding the computed public link.
pub fn cdn_link_field() -> (r: &'static str)
    ensures
        r@ == "cdn_link"@,
{
    "cdn_link"
}

/// The relayed result's field holding the Pages link, when one applies.
pub fn pages_link_field() -> (r: &'static str)
    ensures
        r@ == "pages_link"@,
{
    "pages_link"
}

} // verus!
