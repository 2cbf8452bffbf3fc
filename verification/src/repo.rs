//! Target-repository resolution: an explicit field must itself be an
//! `owner/name` pair of two non-empty segments; with no field at all the
//! target is the user's own Pages repository `{username}.github.io`.

use vstd::prelude::*;

verus! {

use crate::bytes::{
    lit_bytes,
    append_lit,
    clone_bytes,
    copy_range,
    last_index_of,
    rfind_byte,
};
use crate::errors::ValidationError;

/// A repository, addressed as owner and name.
#[derive(Clone, Debug, PartialEq, Eq)]
pub struct RepositoryRef {
    pub owner: Vec<u8>,
    pub name: Vec<u8>,
}

/// The view of an optional byte-vector form field.
pub open spec fn opt_bytes(o: Option<Vec<u8>>) -> Option<Seq<u8>> {
    match o {
        Some(v) => Some(v@),
        None => None,
    }
}

/// The name of the user's Pages repository: `{username}.github.io`.
pub open spec fn pages_repo_spec(username: Seq<u8>) -> Seq<u8> {
    username + lit_bytes(".github.io")
}

pub fn pages_repo_name(username: &Vec<u8>) -> (r: Vec<u8>)
    ensures
        r@ == pages_repo_spec(username@),
{
    let mut r = clone_bytes(username);
    append_lit(&mut r, ".github.io");
    r
}

/// Whether `s` splits on `/` into exactly two parts (one single `/`),
/// either of which may be empty.
pub open spec fn has_single_slash(s: Seq<u8>) -> bool {
    &&& last_index_of(s, 47u8) >= 0
    &&& last_index_of(s.take(last_index_of(s, 47u8)), 47u8) == -1
}

/// Whether `s` splits on `/` into exactly two non-empty segments: the form
/// a target repository must have.
pub open spec fn splits_in_two(s: Seq<u8>) -> bool {
    &&& has_single_slash(s)
    &&& 1 <= last_index_of(s, 47u8) < s.len() - 1
}

/// The part before the last `/`.
pub open spec fn owner_of(s: Seq<u8>) -> Seq<u8> {
    s.take(last_index_of(s, 47u8))
}

/// The part after the last `/`.
pub open spec fn name_of(s: Seq<u8>) -> Seq<u8> {
    s.skip(last_index_of(s, 47u8) + 1)
}

fn find_slash(s: &Vec<u8>) -> (r: Option<usize>)
    ensures
        match r {
            Some(i) => i < s@.len() && last_index_of(s@, 47u8) == i,
            None => last_index_of(s@, 47u8) == -1,
        },
{
    rfind_byte(s, 47u8)
}

/// Splits a fully qualified repository string at its single `/` into a
/// validated owner and name; rejects anything else as a malformed target.
pub fn split_repository(full: &Vec<u8>) -> (r: Result<RepositoryRef, ValidationError>)
    ensures
        r is Ok <==> splits_in_two(full@),
        r matches Ok(rr) ==> rr.owner@ == owner_of(full@) && rr.name@ == name_of(full@),
        r matches Err(e) ==> e == ValidationError::BadRepoFormat,
{
    match find_slash(full) {
        None => Err(ValidationError::BadRepoFormat),
        Some(i) => {
            let n = full.len();
            if i < 1 || i + 1 >= n {
                return Err(ValidationError::BadRepoFormat);
            }
            let owner = copy_range(full, 0, i);
            proof {
                assert(full@.subrange(0, i as int) =~= full@.take(i as int));
            }
            match find_slash(&owner) {
                Some(_) => Err(ValidationError::BadRepoFormat),
                None => {
                    let name = copy_range(full, i + 1, full.len());
                    proof {
                        assert(full@.subrange(i + 1, full@.len() as int) =~= full@.skip(i + 1));
                    }
                    Ok(RepositoryRef { owner, name })
                },
            }
        },
    }
}

/// Whether the upload's target field is acceptable: absent (the Pages
/// default), or an explicit value that splits into two non-empty segments.
pub open spec fn target_valid(field: Option<Seq<u8>>) -> bool {
    match field {
        None => true,
        Some(f) => splits_in_two(f),
    }
}

/// The owner an upload aims at: the explicit pair's first segment, or the
/// user with no field.
pub open spec fn target_owner(username: Seq<u8>, field: Option<Seq<u8>>) -> Seq<u8> {
    match field {
        None => username,
        Some(f) => owner_of(f),
    }
}

/// The repository name an upload aims at: the explicit pair's second
/// segment, or the user's Pages repository with no field.
pub open spec fn target_name(username: Seq<u8>, field: Option<Seq<u8>>) -> Seq<u8> {
    match field {
        None => pages_repo_spec(username),
        Some(f) => name_of(f),
    }
}

/// Resolves the upload target. An absent field defaults to the user's own
/// Pages repository; an explicit field must split into exactly two
/// non-empty segments or the submission is rejected.
pub fn resolve_repository(username: &Vec<u8>, repo_field: &Option<Vec<u8>>) -> (r: Result<
    RepositoryRef,
    ValidationError,
>)
    ensures
        r is Ok <==> target_valid(opt_bytes(*repo_field)),
        r matches Ok(rr) ==> rr.owner@ == target_owner(username@, opt_bytes(*repo_field))
            && rr.name@ == target_name(username@, opt_bytes(*repo_field)),
        r matches Err(e) ==> e == ValidationError::BadRepoFormat,
{
    match repo_field {
        None => Ok(
            RepositoryRef { owner: clone_bytes(username), name: pages_repo_name(username) },
        ),
        Some(f) => split_repository(f),
    }
}

/// Picks the repository a delete aims at: an explicit `owner/name` pair is
/// split; anything else is taken verbatim as a repository of the user's own.
pub fn resolve_delete_target(username: &Vec<u8>, repo_field: &Vec<u8>) -> (r: RepositoryRef)
    ensures
        has_single_slash(repo_field@) ==> r.owner@ == owner_of(repo_field@) && r.name@ == name_of(
            repo_field@,
        ),
        !has_single_slash(repo_field@) ==> r.owner@ == username@ && r.name@ == repo_field@,
{
    match find_slash(repo_field) {
        Some(i) => {
            let n = repo_field.len();
            let owner = copy_range(repo_field, 0, i);
            proof {
                assert(repo_field@.subrange(0, i as int) =~= repo_field@.take(i as int));
            }
            match find_slash(&owner) {
                Some(_) => RepositoryRef {
                    owner: clone_bytes(username),
                    name: clone_bytes(repo_field),
                },
                None => {
                    let name = copy_range(repo_field, i + 1, n);
                    proof {
                        assert(repo_field@.subrange(i + 1, repo_field@.len() as int)
                            =~= repo_field@.skip(i + 1));
                    }
                    RepositoryRef { owner, name }
                },
            }
        },
        None => RepositoryRef {
            owner: clone_bytes(username),
            name: clone_bytes(repo_field),
        },
    }
}

} // verus!
