//! A claim registry: binds opaque content fingerprints to an owning account
//! and the sequence number at which the claim was registered, and lets the
//! owner transfer or revoke the claim.

pub mod laws;
pub mod registry;
pub mod types;

pub use registry::Pallet;
pub use types::{AccountId, BlockNumber, Error, Event};
