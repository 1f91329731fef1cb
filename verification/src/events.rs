//! Notification records returned by successful operations. The host
//! broadcasts them for off-chain indexing; they carry no authority over
//! ledger state.

use vstd::prelude::*;

verus! {

/// Emitted by a balance reconciliation: the custody account and its balance.
#[derive(Debug, Clone, Copy, PartialEq, Eq)]
pub struct ReconcileEvent {
    pub vault_token: [u8; 32],
    pub balance: u64,
    pub timestamp: i64,
}

/// Emitted when the administrative authority is handed over.
#[derive(Debug, Clone, Copy, PartialEq, Eq)]
pub struct AuthorityTransferEvent {
    pub old_authority: [u8; 32],
    pub new_authority: [u8; 32],
    pub timestamp: i64,
}

/// Emitted when configuration parameters change.
#[derive(Debug, Clone, Copy, PartialEq, Eq)]
pub struct ConfigUpdateEvent {
    pub paused: bool,
    pub timestamp: i64,
}

/// Emitted when the configuration record is torn down.
#[derive(Debug, Clone, Copy, PartialEq, Eq)]
pub struct ConfigCloseEvent {
    pub authority: [u8; 32],
    pub timestamp: i64,
}

/// Emitted by a successful payout registration. Carries the original race
/// id for off-chain indexing next to the digest used for on-ledger lookups.
#[derive(Debug, Clone, PartialEq, Eq)]
pub struct PayoutRegisteredEvent {
    pub race_id: Vec<u8>,
    pub race_id_hash: [u8; 32],
    pub recipient: [u8; 32],
    pub points: u64,
    pub amount: u64,
    pub timestamp: i64,
}

/// Emitted by a successful payout claim.
#[derive(Debug, Clone, Copy, PartialEq, Eq)]
pub struct PayoutsClaimedEvent {
    pub recipient: [u8; 32],
    pub total_amount: u64,
    pub payout_count: u32,
    pub timestamp: i64,
}

/// Emitted by a successful referral bonus registration.
#[derive(Debug, Clone, PartialEq, Eq)]
pub struct ReferralBonusRegisteredEvent {
    pub race_id: Vec<u8>,
    pub referrer: [u8; 32],
    pub referee: [u8; 32],
    pub amount: u64,
    pub timestamp: i64,
}

/// Emitted by a successful referral bonus claim.
#[derive(Debug, Clone, Copy, PartialEq, Eq)]
pub struct PendingBonusesClaimedEvent {
    pub referrer: [u8; 32],
    pub amount: u64,
    pub bonus_count: u32,
    pub timestamp: i64,
}

} // verus!
