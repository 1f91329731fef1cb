//! A custodial value-distribution ledger: pooled funds in a vault are paid
//! out to race participants (points-based payouts) and referrers (referral
//! bonuses), with exactly-once accounting enforced by append-only receipt
//! records and per-recipient plus global aggregate registries.

pub mod bytes;
pub mod digest;
pub mod errors;
pub mod events;
pub mod laws;
pub mod lookup;
pub mod state;
pub mod sums;
pub mod vault;
