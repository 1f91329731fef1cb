//! Error taxonomy for the vault ledger. Every operation either fully commits
//! or fails with one of these and leaves no partial state behind.

use vstd::prelude::*;

verus! {

/// The reasons an operation on the vault can be refused.
#[derive(Debug, Clone, Copy, PartialEq, Eq, Structural)]
pub enum VaultError {
    /// The amount of a deposit, payout or bonus must be greater than zero.
    ZeroAmount,
    /// The vault's token balance does not cover the pending total being claimed.
    InsufficientBalance,
    /// The config's paused flag is set; registrations and claims are refused.
    ProgramPaused,
    /// The caller-supplied digest does not match the digest of the race id.
    InvalidRaceIdHash,
    /// A checked addition on a ledger total would overflow.
    Overflow,
    /// The referrer has no pending bonuses to claim.
    NoPendingBonuses,
    /// The recipient has no pending payouts to claim.
    NoPendingPayouts,
    /// A payout receipt for this (race id digest, recipient) pair already exists.
    PayoutAlreadyExists,
    /// A referral bonus record for this (race id, referrer, referee) triple
    /// already exists.
    BonusAlreadyExists,
    /// The recipient argument does not match the designated recipient account.
    InvalidRecipient,
    /// The race id exceeds the maximum length of 32 bytes.
    RaceIdTooLong,
    /// A referrer may not refer themselves.
    SelfReferralNotAllowed,
    /// The caller is not the configured administrative authority.
    Unauthorized,
}

} // verus!
