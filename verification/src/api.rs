//! What the gateway hands the remote hosting API and how it reads the
//! answers: endpoint URLs, the authorization header, the fixed commit
//! messages, and the status-code interpretation each call applies.

use vstd::prelude::*;

verus! {

use crate::bytes::{lit_bytes, str_bytes, append_bytes, append_lit};
use crate::errors::{AuthError, RemoteError};

/// The success statuses: exactly the 2xx range.
pub open spec fn is_success_spec(status: u16) -> bool {
    200 <= status < 300
}

pub fn is_success_status(status: u16) -> (r: bool)
    ensures
        r == is_success_spec(status),
{
    200 <= status && status < 300
}

/// The identity endpoint, queried to validate a credential.
pub fn user_url() -> (r: Vec<u8>)
    ensures
        r@ == lit_bytes("https://api.github.com/user"),
{
    str_bytes("https://api.github.com/user")
}

/// The endpoint a repository-creation request is posted to.
pub fn create_repo_url() -> (r: Vec<u8>)
    ensures
        r@ == lit_bytes("https://api.github.com/user/repos"),
{
    str_bytes("https://api.github.com/user/repos")
}

/// The endpoint describing one repository; probed to see whether it exists.
pub open spec fn repo_url_spec(owner: Seq<u8>, repo: Seq<u8>) -> Seq<u8> {
    lit_bytes("https://api.github.com/repos/") + owner + seq![47u8] + repo
}

pub fn repo_url(owner: &Vec<u8>, repo: &Vec<u8>) -> (r: Vec<u8>)
    ensures
        r@ == repo_url_spec(owner@, repo@),
{
    let mut r = str_bytes("https://api.github.com/repos/");
    append_bytes(&mut r, owner);
    r.push(47u8);
    append_bytes(&mut r, repo);
    proof {
        assert((lit_bytes("https://api.github.com/repos/") + owner@).push(47u8) =~= lit_bytes(
            "https://api.github.com/repos/",
        ) + owner@ + seq![47u8]);
    }
    r
}

/// The contents endpoint for one file: reads, commits and deletes all go
/// through it.
pub open spec fn contents_url_spec(owner: Seq<u8>, repo: Seq<u8>, path: Seq<u8>) -> Seq<u8> {
    repo_url_spec(owner, repo) + lit_bytes("/contents/") + path
}

pub fn contents_url(owner: &Vec<u8>, repo: &Vec<u8>, path: &Vec<u8>) -> (r: Vec<u8>)
    ensures
        r@ == contents_url_spec(owner@, repo@, path@),
{
    let mut r = repo_url(owner, repo);
    append_lit(&mut r, "/contents/");
    append_bytes(&mut r, path);
    r
}

/// The Authorization header value carrying the opaque bearer token.
pub open spec fn auth_header_spec(token: Seq<u8>) -> Seq<u8> {
    lit_bytes("token ") + token
}

pub fn auth_header_value(token: &Vec<u8>) -> (r: Vec<u8>)
    ensures
        r@ == auth_header_spec(token@),
{
    let mut r = str_bytes("token ");
    append_bytes(&mut r, token);
    r
}

/// The fixed commit message of an upload, identifying the tool and path.
pub open spec fn upload_message_spec(path: Seq<u8>) -> Seq<u8> {
    lit_bytes("Upload ") + path + lit_bytes(" via RustPic")
}

pub fn upload_message(path: &Vec<u8>) -> (r: Vec<u8>)
    ensures
        r@ == upload_message_spec(path@),
{
    let mut r = str_bytes("Upload ");
    append_bytes(&mut r, path);
    append_lit(&mut r, " via RustPic");
    r
}

/// The fixed commit message of a deletion.
pub open spec fn delete_message_spec(path: Seq<u8>) -> Seq<u8> {
    lit_bytes("Delete ") + path + lit_bytes(" via RustPic")
}

pub fn delete_message(path: &Vec<u8>) -> (r: Vec<u8>)
    ensures
        r@ == delete_message_spec(path@),
{
    let mut r = str_bytes("Delete ");
    append_bytes(&mut r, path);
    append_lit(&mut r, " via RustPic");
    r
}

/// A repository-creation request always asks for an initial commit
/// (`auto_init`), since contents can only be written to a repository that
/// already has one.
pub struct CreateRepoRequest {
    pub name: Vec<u8>,
    pub description: Vec<u8>,
    pub auto_init: bool,
}

pub fn create_repo_request(name: &Vec<u8>, description: &Vec<u8>) -> (r: CreateRepoRequest)
    ensures
        r.name@ == name@,
        r.description@ == description@,
        r.auto_init == true,
{
    CreateRepoRequest {
        name: crate::bytes::clone_bytes(name),
        description: crate::bytes::clone_bytes(description),
        auto_init: true,
    }
}

/// What the repository-exists probe concludes from an outcome: `Some`
/// status means the call answered, `None` that it failed at the network
/// level. Only a 2xx answer counts as existing; every failure is `false`,
/// never an error.
pub open spec fn repo_exists_spec(outcome: Option<u16>) -> bool {
    match outcome {
        Some(status) => is_success_spec(status),
        None => false,
    }
}

pub fn interpret_repo_exists(outcome: Option<u16>) -> (r: bool)
    ensures
        r == repo_exists_spec(outcome),
{
    match outcome {
        Some(status) => is_success_status(status),
        None => false,
    }
}

/// How each write call (repository creation, file commit, file delete)
/// reads its answer: exactly a 2xx status is success; anything else is the
/// remote's refusal, carried with its status code and verbatim body.
pub fn interpret_write_outcome(status: u16, body: Vec<u8>) -> (r: Result<(), RemoteError>)
    ensures
        r is Ok <==> is_success_spec(status),
        r matches Err(e) ==> e.status == status && e.body@ == body@,
{
    if is_success_status(status) {
        Ok(())
    } else {
        Err(RemoteError { status, body })
    }
}

/// What credential validation concludes from the identity endpoint's
/// answer: a 2xx status whose body yielded a login is that login; any
/// non-2xx answer, a network-level failure (no status at all), or a body
/// without a login is uniformly an authentication failure.
pub open spec fn identity_spec(status: Option<u16>, login: Option<Seq<u8>>) -> Result<
    Seq<u8>,
    AuthError,
> {
    match status {
        Some(code) => if is_success_spec(code) {
            match login {
                Some(l) => Ok(l),
                None => Err(AuthError),
            }
        } else {
            Err(AuthError)
        },
        None => Err(AuthError),
    }
}

pub fn interpret_identity(status: Option<u16>, login: Option<Vec<u8>>) -> (r: Result<
    Vec<u8>,
    AuthError,
>)
    ensures
        r matches Ok(l) ==> identity_spec(status, crate::repo::opt_bytes(login)) == Ok::<
            Seq<u8>,
            AuthError,
        >(l@),
        r is Err ==> identity_spec(status, crate::repo::opt_bytes(login)) == Err::<
            Seq<u8>,
            AuthError,
        >(AuthError),
        r is Ok <==> identity_spec(status, crate::repo::opt_bytes(login)) is Ok,
{
    match status {
        Some(code) => if is_success_status(code) {
            match login {
                Some(l) => Ok(l),
                None => Err(AuthError),
            }
        } else {
            Err(AuthError)
        },
        None => Err(AuthError),
    }
}

/// Validating the same credential twice is idempotent on this side: the
/// identity read from the answer is a pure function of the answer, so equal
/// remote answers always yield the same identity.
pub proof fn lemma_identity_idempotent(
    status1: Option<u16>,
    login1: Option<Seq<u8>>,
    status2: Option<u16>,
    login2: Option<Seq<u8>>,
)
    requires
        status1 == status2,
        login1 == login2,
    ensures
        identity_spec(status1, login1) == identity_spec(status2, login2),
{
}

} // verus!
