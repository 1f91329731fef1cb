//! Durable record types of the ledger: the vault configuration, the
//! append-only receipt and referral-bonus stores, and the mutable
//! per-recipient and global aggregate registries.
//!
//! Identities (wallets, mints, token accounts) are 32-byte addresses;
//! race ids are byte strings; digests are 32-byte SHA-256 outputs.

use vstd::prelude::*;

verus! {

/// The all-zero address. A registry whose owner field holds it has never
/// been written; the ledger uses explicit presence checks instead, so the
/// sentinel only appears in snapshots of absent registries.
pub const ZERO_ADDRESS: [u8; 32] = [
    0, 0, 0, 0, 0, 0, 0, 0, 0, 0, 0, 0, 0, 0, 0, 0,
    0, 0, 0, 0, 0, 0, 0, 0, 0, 0, 0, 0, 0, 0, 0, 0,
];

/// Per-vault configuration, created once at bootstrap. `authority` and
/// `paused` change only through administrative operations; `mint` and
/// `vault_signer_bump` are immutable after creation.
#[derive(Debug, Clone, Copy, PartialEq, Eq)]
pub struct Config {
    /// The administrative authority allowed to register payouts and bonuses
    /// and to perform configuration changes.
    pub authority: [u8; 32],
    /// The asset this vault custodies.
    pub mint: [u8; 32],
    /// Proof byte of the vault's delegated signer capability.
    pub vault_signer_bump: u8,
    /// While set, registrations and claims are refused.
    pub paused: bool,
}

/// One immutable receipt per (race id digest, recipient) pair: the sole
/// double-registration guard for payouts. Never mutated or deleted.
#[derive(Debug, Clone, Copy, PartialEq, Eq)]
pub struct PayoutReceipt {
    /// SHA-256 digest of the race id.
    pub race_id_hash: [u8; 32],
    /// The wallet owed this payout.
    pub recipient: [u8; 32],
    /// The points that earned the payout; recorded, never interpreted.
    pub points: u64,
    /// The amount accrued by this registration.
    pub amount: u64,
    /// Clock reading at registration.
    pub timestamp: i64,
}

/// One immutable record per (race id, referrer, referee) triple: the
/// double-registration guard for referral bonuses.
///
/// The `claimed` flag is written `false` at creation and never updated:
/// claim status is tracked in the aggregate [`ReferrerRegistry`], so the
/// per-record flag is advisory only.
#[derive(Debug, Clone, PartialEq, Eq)]
pub struct ReferralBonus {
    /// The race id, at most 32 bytes.
    pub race_id: Vec<u8>,
    /// The wallet that made the referral and is owed the bonus.
    pub referrer: [u8; 32],
    /// The wallet that was referred.
    pub referee: [u8; 32],
    /// The amount accrued by this registration.
    pub amount: u64,
    /// Advisory flag, see the type-level note.
    pub claimed: bool,
    /// Clock reading at registration.
    pub timestamp: i64,
}

/// Mutable aggregate of one recipient's payouts: what is still owed
/// (`total_pending`), what has been paid (`total_claimed`), and how many
/// receipts were ever written for them.
#[derive(Debug, Clone, Copy, PartialEq, Eq)]
pub struct PayoutRegistry {
    /// The wallet this registry aggregates.
    pub recipient: [u8; 32],
    /// Registered but not yet claimed.
    pub total_pending: u64,
    /// Moved out of pending by claims.
    pub total_claimed: u64,
    /// Number of payout receipts ever written for this recipient.
    pub payout_count: u32,
    /// Clock reading of the last successful mutation.
    pub last_updated: i64,
}

/// Mutable aggregate of one referrer's bonuses; same shape as
/// [`PayoutRegistry`], scoped to referral bonuses.
#[derive(Debug, Clone, Copy, PartialEq, Eq)]
pub struct ReferrerRegistry {
    /// The wallet this registry aggregates.
    pub referrer: [u8; 32],
    /// Registered but not yet claimed.
    pub total_pending: u64,
    /// Moved out of pending by claims.
    pub total_claimed: u64,
    /// Number of referral bonus records ever written for this referrer.
    pub bonus_count: u32,
    /// Clock reading of the last successful mutation.
    pub last_updated: i64,
}

/// Singleton aggregate over all payout recipients of a vault. Kept in
/// lockstep with the per-recipient registries; referral bonuses are not
/// aggregated here, mirroring the per-referrer-only bookkeeping of the
/// referral side.
#[derive(Debug, Clone, Copy, PartialEq, Eq)]
pub struct GlobalPayoutRegistry {
    /// Sum of `total_pending` over all payout registries.
    pub total_pending: u64,
    /// Sum of `total_claimed` over all payout registries.
    pub total_claimed: u64,
    /// Sum of `payout_count` over all payout registries.
    pub total_payout_count: u32,
    /// Number of recipients with a payout registry.
    pub total_recipient_count: u32,
    /// Clock reading of the last successful mutation.
    pub last_updated: i64,
}

} // verus!
