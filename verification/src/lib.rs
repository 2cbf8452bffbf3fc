//! GitHub-backed image storage gateway: collision-proof stored-file naming,
//! repository resolution, public-link construction, and newest-first listing
//! order, with the policies stated as contracts and proved.
//!
//! The remote HTTP calls themselves live outside this crate; every decision
//! around them (what to send, how to read an outcome) is verified here.
//! All text is modelled as UTF-8 bytes (`Vec<u8>` / `Seq<u8>`).

pub mod api;
pub mod bytes;
pub mod errors;
pub mod forms;
pub mod listing;
pub mod naming;
pub mod relay;
pub mod repo;
pub mod templates;
pub mod upload;
