//! Moderation backend core: tiered admin keys, per-user moderation status
//! with an append-only audit log, and signed third-party identity lookups.

pub mod clock;
pub mod db;
pub mod identity;
pub mod keyring;
pub mod ledger;
pub mod records;
pub mod service;
pub mod status;
