//! The upload workflow's decisions: payload validation, the committed
//! plan (where the file goes and what is sent), and the public links
//! derived for a committed file.
//!
//! The remote calls themselves (the repository probe, the best-effort
//! creation, the commit) happen outside; their outcomes come back in as
//! plain values and the link policy is applied here, verified.

use vstd::prelude::*;
use base64::Engine;

verus! {

use crate::bytes::{lit_bytes, str_bytes, append_bytes, append_lit, bytes_eq};
use crate::errors::ValidationError;
use crate::naming::stored_path;
use crate::naming::make_stored_path;
use crate::repo::{
    opt_bytes,
    target_valid,
    target_owner,
    target_name,
    pages_repo_spec,
    pages_repo_name,
    resolve_repository,
};

/// The hard cap on an upload: anything above 50 MiB is rejected before any
/// remote call.
pub const MAX_UPLOAD_BYTES: usize = 50 * 1024 * 1024;

/// The CDN mirror caps artifacts at 20 MiB; up to there the CDN-mirror
/// link is handed out, above it the raw-content link.
pub const CDN_LIMIT_BYTES: usize = 20 * 1024 * 1024;

/// Which validation failure, if any, a submitted payload is rejected
/// with: empty bytes first, then a missing file name, then the size cap.
pub open spec fn payload_error(content: Seq<u8>, filename: Seq<u8>) -> Option<ValidationError> {
    if content.len() == 0 {
        Some(ValidationError::EmptyContent)
    } else if filename.len() == 0 {
        Some(ValidationError::EmptyFilename)
    } else if content.len() > MAX_UPLOAD_BYTES {
        Some(ValidationError::PayloadTooLarge)
    } else {
        None
    }
}

/// Rejects an empty payload, a missing file name, or a payload over the
/// 50 MiB cap, before anything is sent anywhere.
pub fn validate_payload(content: &Vec<u8>, filename: &Vec<u8>) -> (r: Result<(), ValidationError>)
    ensures
        r is Ok <==> payload_error(content@, filename@) is None,
        r matches Err(e) ==> payload_error(content@, filename@) == Some(e),
{
    if content.len() == 0 {
        Err(ValidationError::EmptyContent)
    } else if filename.len() == 0 {
        Err(ValidationError::EmptyFilename)
    } else if content.len() > MAX_UPLOAD_BYTES {
        Err(ValidationError::PayloadTooLarge)
    } else {
        Ok(())
    }
}

/// What the standard padded base64 alphabet makes of a byte payload.
pub uninterp spec fn base64_of(s: Seq<u8>) -> Seq<u8>;

/// Relies on base64's `Engine::encode` with the `STANDARD` engine (padded):
/// the encoding is a function of the input bytes alone, and the padded
/// output is four bytes for every three input bytes, rounded up.
#[verifier::external_body]
fn encode_base64(content: &Vec<u8>) -> (r: Vec<u8>)
    requires
        4 * ((content@.len() + 2) / 3) <= usize::MAX,
    ensures
        r@ == base64_of(content@),
        r@.len() == 4 * ((content@.len() + 2) / 3),
{
    base64::engine::general_purpose::STANDARD.encode(content.as_slice()).into_bytes()
}

/// Everything the commit call needs for a validated upload: the resolved
/// target, the collision-proof stored path, and the encoded payload.
pub struct UploadPlan {
    pub owner: Vec<u8>,
    pub repo: Vec<u8>,
    pub path: Vec<u8>,
    pub content_b64: Vec<u8>,
    pub size: usize,
}

/// Turns a raw submission into a committed plan, or rejects it: payload
/// validation first, then target resolution (an explicit target must be a
/// two-segment `owner/name` pair), then the stored path and the encoded
/// bytes. No remote call is involved; a rejected submission therefore
/// never causes one.
pub fn plan_upload(
    username: &Vec<u8>,
    repo_field: &Option<Vec<u8>>,
    path_prefix: &Vec<u8>,
    filename: &Vec<u8>,
    content: &Vec<u8>,
    timestamp_millis: u64,
) -> (r: Result<UploadPlan, ValidationError>)
    ensures
        ({
            let field = opt_bytes(*repo_field);
            &&& r is Ok <==> (payload_error(content@, filename@) is None && target_valid(field))
            &&& r matches Ok(p) ==> {
                &&& p.owner@ == target_owner(username@, field)
                &&& p.repo@ == target_name(username@, field)
                &&& p.path@ == stored_path(path_prefix@, filename@, timestamp_millis)
                &&& p.content_b64@ == base64_of(content@)
                &&& p.size == content@.len()
            }
            &&& r matches Err(e) ==> e == (match payload_error(content@, filename@) {
                Some(v) => v,
                None => ValidationError::BadRepoFormat,
            })
        }),
{
    if let Err(e) = validate_payload(content, filename) {
        return Err(e);
    }
    let target = match resolve_repository(username, repo_field) {
        Ok(t) => t,
        Err(e) => {
            return Err(e);
        },
    };
    let path = make_stored_path(path_prefix, filename, timestamp_millis);
    let content_b64 = encode_base64(content);
    Ok(
        UploadPlan {
            owner: target.owner,
            repo: target.name,
            path,
            content_b64,
            size: content.len(),
        },
    )
}

/// The CDN-mirror link of a committed file.
pub open spec fn cdn_link_spec(owner: Seq<u8>, repo: Seq<u8>, path: Seq<u8>) -> Seq<u8> {
    lit_bytes("https://cdn.jsdelivr.net/gh/") + owner + seq![47u8] + repo + seq![47u8] + path
}

/// The raw-content link of a committed file, used above the CDN cap.
pub open spec fn raw_link_spec(owner: Seq<u8>, repo: Seq<u8>, path: Seq<u8>) -> Seq<u8> {
    lit_bytes("https://raw.githubusercontent.com/") + owner + seq![47u8] + repo + lit_bytes(
        "/main/",
    ) + path
}

/// The user's Pages site.
pub open spec fn pages_site_spec(owner: Seq<u8>) -> Seq<u8> {
    lit_bytes("https://") + pages_repo_spec(owner)
}

/// The direct Pages URL of a committed file.
pub open spec fn pages_link_spec(owner: Seq<u8>, path: Seq<u8>) -> Seq<u8> {
    pages_site_spec(owner) + seq![47u8] + path
}

/// The outcome handed back across the redirect: the computed public link,
/// and the Pages URL when it applies.
pub struct UploadResult {
    pub cdn_link: Vec<u8>,
    pub pages_link: Option<Vec<u8>>,
}

fn cdn_link(owner: &Vec<u8>, repo: &Vec<u8>, path: &Vec<u8>) -> (r: Vec<u8>)
    ensures
        r@ == cdn_link_spec(owner@, repo@, path@),
{
    let mut r = str_bytes("https://cdn.jsdelivr.net/gh/");
    append_bytes(&mut r, owner);
    r.push(47u8);
    append_bytes(&mut r, repo);
    r.push(47u8);
    append_bytes(&mut r, path);
    proof {
        assert((lit_bytes("https://cdn.jsdelivr.net/gh/") + owner@).push(47u8) =~= lit_bytes(
            "https://cdn.jsdelivr.net/gh/",
        ) + owner@ + seq![47u8]);
        assert((lit_bytes("https://cdn.jsdelivr.net/gh/") + owner@ + seq![47u8] + repo@).push(47u8)
            =~= lit_bytes("https://cdn.jsdelivr.net/gh/") + owner@ + seq![47u8] + repo@
            + seq![47u8]);
    }
    r
}

fn raw_link(owner: &Vec<u8>, repo: &Vec<u8>, path: &Vec<u8>) -> (r: Vec<u8>)
    ensures
        r@ == raw_link_spec(owner@, repo@, path@),
{
    let mut r = str_bytes("https://raw.githubusercontent.com/");
    append_bytes(&mut r, owner);
    r.push(47u8);
    append_bytes(&mut r, repo);
    append_lit(&mut r, "/main/");
    append_bytes(&mut r, path);
    proof {
        assert((lit_bytes("https://raw.githubusercontent.com/") + owner@).push(47u8) =~= lit_bytes(
            "https://raw.githubusercontent.com/",
        ) + owner@ + seq![47u8]);
    }
    r
}

/// The root URL of the user's Pages site, the dashboard's fallback link.
pub fn pages_site_url(owner: &Vec<u8>) -> (r: Vec<u8>)
    ensures
        r@ == pages_site_spec(owner@),
{
    let mut r = str_bytes("https://");
    let repo = pages_repo_name(owner);
    append_bytes(&mut r, &repo);
    r
}

/// The links of a committed file. The CDN-mirror link is handed out up to
/// the 20 MiB cap, the raw-content link above it; the Pages link exists
/// exactly when the target is the owner's own `{owner}.github.io`
/// repository and that repository was confirmed to exist.
pub fn build_upload_result(
    owner: &Vec<u8>,
    repo: &Vec<u8>,
    path: &Vec<u8>,
    size: usize,
    pages_repo_exists: bool,
) -> (r: UploadResult)
    ensures
        size <= CDN_LIMIT_BYTES ==> r.cdn_link@ == cdn_link_spec(owner@, repo@, path@),
        size > CDN_LIMIT_BYTES ==> r.cdn_link@ == raw_link_spec(owner@, repo@, path@),
        r.pages_link is Some <==> (pages_repo_exists && repo@ == pages_repo_spec(owner@)),
        r.pages_link matches Some(l) ==> l@ == pages_link_spec(owner@, path@),
{
    let link = if size <= CDN_LIMIT_BYTES {
        cdn_link(owner, repo, path)
    } else {
        raw_link(owner, repo, path)
    };
    let pages_repo = pages_repo_name(owner);
    let pages_link = if pages_repo_exists && bytes_eq(repo, &pages_repo) {
        let mut l = pages_site_url(owner);
        l.push(47u8);
        append_bytes(&mut l, path);
        proof {
            assert(pages_site_spec(owner@).push(47u8) =~= pages_site_spec(owner@) + seq![47u8]);
        }
        Some(l)
    } else {
        None
    };
    UploadResult { cdn_link: link, pages_link }
}

/// The link shown on the dashboard: the one relayed from a just-finished
/// upload if there is one, else the root of the user's Pages site.
pub fn dashboard_pages_link(relayed: Option<Vec<u8>>, username: &Vec<u8>) -> (r: Vec<u8>)
    ensures
        relayed matches Some(l) ==> r@ == l@,
        relayed is None ==> r@ == pages_site_spec(username@),
{
    match relayed {
        Some(l) => l,
        None => pages_site_url(username),
    }
}

} // verus!
