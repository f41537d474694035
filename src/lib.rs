//! Response encoding for a DNS-over-HTTPS name-service backend.
//!
//! The resolver hands over an ordered address list; this crate plans the
//! buffer size and lays the answer out in the caller's buffer in one of the
//! two record layouts the host runtime reads, together with the status and
//! error pair that accompany every outcome.
use vstd::prelude::*;

pub mod consts;
pub mod structs;
pub mod layout;
pub mod status;
pub mod write;
pub mod entry;
pub mod lemmas;

pub use structs::{nss_status, gaih_addrtuple, hostent, AddrTuple};
