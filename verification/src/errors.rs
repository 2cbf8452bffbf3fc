//! The error taxonomy: a bad credential, a malformed client input, or a
//! rejected remote write, each carried as a typed value with its
//! user-visible one-line message.

use vstd::prelude::*;

verus! {

use crate::bytes::{lit_bytes, str_bytes, append_bytes};

/// The credential was rejected, or the identity call could not be made at
/// all; either way the caller cannot proceed authenticated and must force a
/// fresh login.
#[derive(Clone, Copy, Debug, PartialEq, Eq, Structural)]
pub struct AuthError;

impl AuthError {
    /// The one-line message shown on the login form.
    pub fn message(&self) -> (r: Vec<u8>)
        ensures
            r@ == lit_bytes("Invalid GitHub Token"),
    {
        str_bytes("Invalid GitHub Token")
    }
}

/// Malformed client input, rejected before any remote call is attempted.
#[derive(Clone, Copy, Debug, PartialEq, Eq, Structural)]
pub enum ValidationError {
    /// The submitted file had no bytes.
    EmptyContent,
    /// No file name was supplied.
    EmptyFilename,
    /// The payload was larger than the 50 MiB cap.
    PayloadTooLarge,
    /// An explicit target repository did not split into exactly two
    /// non-empty `/`-separated segments.
    BadRepoFormat,
}

impl ValidationError {
    /// The one-line message relayed back to the dashboard.
    pub open spec fn message_spec(self) -> Seq<u8> {
        match self {
            ValidationError::EmptyContent => lit_bytes(
                "Failed to read file content. The file may be empty or corrupted.",
            ),
            ValidationError::EmptyFilename => lit_bytes("No file selected."),
            ValidationError::PayloadTooLarge => lit_bytes(
                "File too large. Maximum size is 50MB.",
            ),
            ValidationError::BadRepoFormat => lit_bytes(
                "Invalid repository format. Use user/repo",
            ),
        }
    }

    pub fn message(&self) -> (r: Vec<u8>)
        ensures
            r@ == self.message_spec(),
    {
        match self {
            ValidationError::EmptyContent => str_bytes(
                "Failed to read file content. The file may be empty or corrupted.",
            ),
            ValidationError::EmptyFilename => str_bytes("No file selected."),
            ValidationError::PayloadTooLarge => str_bytes("File too large. Maximum size is 50MB."),
            ValidationError::BadRepoFormat => str_bytes("Invalid repository format. Use user/repo"),
        }
    }
}

/// The remote hosting API rejected a write: the status code it answered
/// with and its raw response body, surfaced verbatim. A failure of the
/// commit step itself is this same value, worded as an upload failure.
#[derive(Clone, Debug, PartialEq, Eq)]
pub struct RemoteError {
    pub status: u16,
    pub body: Vec<u8>,
}

impl RemoteError {
    /// Message for a commit (file create/update) that the remote refused.
    pub fn upload_failed_text(&self) -> (r: Vec<u8>)
        ensures
            r@ == lit_bytes("Upload failed: ") + self.body@,
    {
        let mut r = str_bytes("Upload failed: ");
        append_bytes(&mut r, &self.body);
        r
    }

    /// Message for a repository creation that the remote refused.
    pub fn creation_failed_text(&self) -> (r: Vec<u8>)
        ensures
            r@ == lit_bytes("Repo creation failed: ") + self.body@,
    {
        let mut r = str_bytes("Repo creation failed: ");
        append_bytes(&mut r, &self.body);
        r
    }

    /// Message for a file deletion that the remote refused.
    pub fn delete_failed_text(&self) -> (r: Vec<u8>)
        ensures
            r@ == lit_bytes("Delete failed: ") + self.body@,
    {
        let mut r = str_bytes("Delete failed: ");
        append_bytes(&mut r, &self.body);
        r
    }
}

} // verus!
