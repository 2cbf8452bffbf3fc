//! The view models the pages are rendered from. Rendering itself is an
//! external collaborator; these carry exactly what it is shown.

use vstd::prelude::*;

verus! {

use crate::listing::FileInfo;

/// The login page: an optional one-line error, and the asset version the
/// page's static links carry.
#[derive(Clone, Debug, PartialEq, Eq)]
pub struct IndexTemplate {
    pub error: Option<Vec<u8>>,
    pub version: Vec<u8>,
}

/// The dashboard: who is logged in, the Pages repository shown, the links
/// and error relayed from a just-finished upload, and the listing.
#[derive(Clone, Debug, PartialEq, Eq)]
pub struct DashboardTemplate {
    pub username: Vec<u8>,
    pub repo: Option<Vec<u8>>,
    pub uploaded_link: Option<Vec<u8>>,
    pub pages_link: Option<Vec<u8>>,
    pub images: Vec<FileInfo>,
    pub error: Option<Vec<u8>>,
    pub version: Vec<u8>,
}

} // verus!
