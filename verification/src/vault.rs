//! The vault ledger and its operations.
//!
//! A [`Vault`] gathers the durable state of one deployment: the
//! configuration, the custody balance, the append-only receipt and referral
//! record stores, and the per-owner plus global aggregate registries. The
//! host executes each operation as one atomic transaction; here each
//! operation is a method that either commits its whole effect or returns an
//! error and leaves the vault untouched.
//!
//! Well-formedness ([`Vault::wf`]) carries the ledger invariants: the
//! global registry mirrors the per-recipient sums, and every registry's
//! pending and claimed totals add up to exactly the amounts ever registered
//! for its owner.

use vstd::prelude::*;

use crate::bytes::{bytes32_eq, bytes_eq};
use crate::digest::{compute_digest, digest_of};
use crate::errors::VaultError;
use crate::events::{
    AuthorityTransferEvent, ConfigCloseEvent, ConfigUpdateEvent, PayoutRegisteredEvent,
    PayoutsClaimedEvent, PendingBonusesClaimedEvent, ReconcileEvent, ReferralBonusRegisteredEvent,
};
use crate::lookup::{
    has_payout_registry, has_referrer_registry, lemma_payout_registry_at,
    lemma_referrer_registry_at, payout_registry_for, payout_registry_index,
    referrer_registry_for, referrer_registry_index, unique_payout_recipients, unique_referrers,
};
use crate::state::{
    Config, GlobalPayoutRegistry, PayoutReceipt, PayoutRegistry, ReferralBonus, ReferrerRegistry,
    ZERO_ADDRESS,
};
use crate::sums::{
    has_receipt, has_record, lemma_receipt_sums_absent, lemma_receipt_sums_push,
    lemma_record_sums_absent, lemma_record_sums_push, lemma_sum_pending_bound,
    lemma_sums_push, lemma_sums_update, receipt_amounts_for, receipt_count_for,
    record_amounts_for, record_count_for, sum_claimed, sum_count, sum_pending,
};

verus! {

/// The longest race id a referral record may carry, in bytes.
pub const MAX_RACE_ID_LEN: usize = 32;

/// The recipient's payout registry entry reads the same in `pre` and
/// `post`: present in one exactly when present in the other, and with the
/// same record when present.
pub open spec fn payout_entry_unchanged(pre: Vault, post: Vault, w: Seq<u8>) -> bool {
    &&& has_payout_registry(post.payout_registries@, w) == has_payout_registry(
        pre.payout_registries@,
        w,
    )
    &&& has_payout_registry(pre.payout_registries@, w) ==> payout_registry_for(
        post.payout_registries@,
        w,
    ) == payout_registry_for(pre.payout_registries@, w)
}

/// The referrer's registry entry reads the same in `pre` and `post`.
pub open spec fn referrer_entry_unchanged(pre: Vault, post: Vault, w: Seq<u8>) -> bool {
    &&& has_referrer_registry(post.referrer_registries@, w) == has_referrer_registry(
        pre.referrer_registries@,
        w,
    )
    &&& has_referrer_registry(pre.referrer_registries@, w) ==> referrer_registry_for(
        post.referrer_registries@,
        w,
    ) == referrer_registry_for(pre.referrer_registries@, w)
}

/// How `post` relates to `pre` after a successful payout claim: the
/// recipient's whole pending total moved to claimed on their registry and
/// on the global registry, the same amount left custody, and nothing else
/// was touched.
pub open spec fn claim_payouts_post(pre: Vault, post: Vault, who: Seq<u8>, now: i64) -> bool {
    let amt = pre.pending_of(who);
    &&& post.config == pre.config
    &&& post.vault_token == pre.vault_token
    &&& post.vault_balance == pre.vault_balance - amt
    &&& post.receipts@ == pre.receipts@
    &&& post.referral_records@ == pre.referral_records@
    &&& post.referrer_registries@ == pre.referrer_registries@
    &&& post.payout_registries@.len() == pre.payout_registries@.len()
    &&& has_payout_registry(post.payout_registries@, who)
    &&& post.pending_of(who) == 0
    &&& post.claimed_of(who) == pre.claimed_of(who) + amt
    &&& post.count_of(who) == pre.count_of(who)
    &&& payout_registry_for(post.payout_registries@, who).recipient@ == who
    &&& payout_registry_for(post.payout_registries@, who).last_updated == now
    &&& forall|w: Seq<u8>| w != who ==> payout_entry_unchanged(pre, post, w)
    &&& post.global_registry == (GlobalPayoutRegistry {
        total_pending: (pre.global_registry.total_pending - amt) as u64,
        total_claimed: (pre.global_registry.total_claimed + amt) as u64,
        total_payout_count: pre.global_registry.total_payout_count,
        total_recipient_count: pre.global_registry.total_recipient_count,
        last_updated: now,
    })
}

/// How `post` relates to `pre` after a successful bonus claim: the
/// referrer's whole pending total moved to claimed on their registry, the
/// same amount left custody, and nothing else was touched. The referral
/// side keeps no global aggregate, so none changes.
pub open spec fn claim_bonuses_post(pre: Vault, post: Vault, who: Seq<u8>, now: i64) -> bool {
    let amt = pre.bonus_pending_of(who);
    &&& post.config == pre.config
    &&& post.vault_token == pre.vault_token
    &&& post.vault_balance == pre.vault_balance - amt
    &&& post.receipts@ == pre.receipts@
    &&& post.payout_registries@ == pre.payout_registries@
    &&& post.global_registry == pre.global_registry
    &&& post.referral_records@ == pre.referral_records@
    &&& post.referrer_registries@.len() == pre.referrer_registries@.len()
    &&& has_referrer_registry(post.referrer_registries@, who)
    &&& post.bonus_pending_of(who) == 0
    &&& post.bonus_claimed_of(who) == pre.bonus_claimed_of(who) + amt
    &&& post.bonus_count_of(who) == pre.bonus_count_of(who)
    &&& referrer_registry_for(post.referrer_registries@, who).referrer@ == who
    &&& referrer_registry_for(post.referrer_registries@, who).last_updated == now
    &&& forall|w: Seq<u8>| w != who ==> referrer_entry_unchanged(pre, post, w)
}

/// How `post` relates to `pre` after a successful referral bonus
/// registration: one record appended, the referrer's registry accrued by
/// `amount` (and created, if absent), and nothing else touched.
pub open spec fn register_referral_post(
    pre: Vault,
    post: Vault,
    race_id: Seq<u8>,
    referrer: [u8; 32],
    referee: [u8; 32],
    amount: u64,
    now: i64,
) -> bool {
    let is_new = !has_referrer_registry(pre.referrer_registries@, referrer@);
    let rec = post.referral_records@.last();
    &&& post.config == pre.config
    &&& post.vault_token == pre.vault_token
    &&& post.vault_balance == pre.vault_balance
    &&& post.receipts@ == pre.receipts@
    &&& post.payout_registries@ == pre.payout_registries@
    &&& post.global_registry == pre.global_registry
    &&& post.referral_records@ == pre.referral_records@.push(rec)
    &&& rec.race_id@ == race_id
    &&& rec.referrer == referrer
    &&& rec.referee == referee
    &&& rec.amount == amount
    &&& rec.claimed == false
    &&& rec.timestamp == now
    &&& post.referrer_registries@.len() == pre.referrer_registries@.len() + (if is_new {
        1int
    } else {
        0
    })
    &&& has_referrer_registry(post.referrer_registries@, referrer@)
    &&& post.bonus_pending_of(referrer@) == pre.bonus_pending_of(referrer@) + amount
    &&& post.bonus_claimed_of(referrer@) == pre.bonus_claimed_of(referrer@)
    &&& post.bonus_count_of(referrer@) == pre.bonus_count_of(referrer@) + 1
    &&& referrer_registry_for(post.referrer_registries@, referrer@).referrer@ == referrer@
    &&& referrer_registry_for(post.referrer_registries@, referrer@).last_updated == now
    &&& forall|w: Seq<u8>| w != referrer@ ==> referrer_entry_unchanged(pre, post, w)
}

/// How `post` relates to `pre` after a successful payout registration:
/// one receipt appended, the recipient's registry accrued by `amount` (and
/// created, if absent), the global registry moved in lockstep, and nothing
/// else touched.
pub open spec fn register_payout_post(
    pre: Vault,
    post: Vault,
    race_id: Seq<u8>,
    race_id_hash: [u8; 32],
    recipient: [u8; 32],
    points: u64,
    amount: u64,
    now: i64,
) -> bool {
    let is_new = !has_payout_registry(pre.payout_registries@, recipient@);
    &&& post.config == pre.config
    &&& post.vault_token == pre.vault_token
    &&& post.vault_balance == pre.vault_balance
    &&& post.referral_records@ == pre.referral_records@
    &&& post.referrer_registries@ == pre.referrer_registries@
    &&& post.receipts@ == pre.receipts@.push(
        (PayoutReceipt { race_id_hash, recipient, points, amount, timestamp: now }),
    )
    &&& post.payout_registries@.len() == pre.payout_registries@.len() + (if is_new {
        1int
    } else {
        0
    })
    &&& has_payout_registry(post.payout_registries@, recipient@)
    &&& post.pending_of(recipient@) == pre.pending_of(recipient@) + amount
    &&& post.claimed_of(recipient@) == pre.claimed_of(recipient@)
    &&& post.count_of(recipient@) == pre.count_of(recipient@) + 1
    &&& payout_registry_for(post.payout_registries@, recipient@).recipient@ == recipient@
    &&& payout_registry_for(post.payout_registries@, recipient@).last_updated == now
    &&& forall|w: Seq<u8>| w != recipient@ ==> payout_entry_unchanged(pre, post, w)
    &&& post.global_registry == (GlobalPayoutRegistry {
        total_pending: (pre.global_registry.total_pending + amount) as u64,
        total_claimed: pre.global_registry.total_claimed,
        total_payout_count: (pre.global_registry.total_payout_count + 1) as u32,
        total_recipient_count: (pre.global_registry.total_recipient_count + (if is_new {
            1int
        } else {
            0
        })) as u32,
        last_updated: now,
    })
}

/// The durable state of one vault deployment.
pub struct Vault {
    /// Authority, mint and pause flag.
    pub config: Config,
    /// Identity of the custody token account.
    pub vault_token: [u8; 32],
    /// Balance of the custody token account.
    pub vault_balance: u64,
    /// Append-only payout receipts, one per (race id digest, recipient).
    pub receipts: Vec<PayoutReceipt>,
    /// One payout registry per recipient that ever received a payout.
    pub payout_registries: Vec<PayoutRegistry>,
    /// The vault-wide aggregate over all payout registries.
    pub global_registry: GlobalPayoutRegistry,
    /// Append-only referral records, one per (race id, referrer, referee).
    pub referral_records: Vec<ReferralBonus>,
    /// One referrer registry per referrer that ever earned a bonus.
    pub referrer_registries: Vec<ReferrerRegistry>,
}

impl Vault {
    /// What is still owed to this recipient (zero if they have no registry).
    pub open spec fn pending_of(self, who: Seq<u8>) -> int {
        if has_payout_registry(self.payout_registries@, who) {
            payout_registry_for(self.payout_registries@, who).total_pending as int
        } else {
            0
        }
    }

    /// What this recipient has already claimed.
    pub open spec fn claimed_of(self, who: Seq<u8>) -> int {
        if has_payout_registry(self.payout_registries@, who) {
            payout_registry_for(self.payout_registries@, who).total_claimed as int
        } else {
            0
        }
    }

    /// How many payouts were ever registered for this recipient.
    pub open spec fn count_of(self, who: Seq<u8>) -> int {
        if has_payout_registry(self.payout_registries@, who) {
            payout_registry_for(self.payout_registries@, who).payout_count as int
        } else {
            0
        }
    }

    /// What is still owed to this referrer in bonuses.
    pub open spec fn bonus_pending_of(self, who: Seq<u8>) -> int {
        if has_referrer_registry(self.referrer_registries@, who) {
            referrer_registry_for(self.referrer_registries@, who).total_pending as int
        } else {
            0
        }
    }

    /// What this referrer has already claimed in bonuses.
    pub open spec fn bonus_claimed_of(self, who: Seq<u8>) -> int {
        if has_referrer_registry(self.referrer_registries@, who) {
            referrer_registry_for(self.referrer_registries@, who).total_claimed as int
        } else {
            0
        }
    }

    /// How many bonuses were ever registered for this referrer.
    pub open spec fn bonus_count_of(self, who: Seq<u8>) -> int {
        if has_referrer_registry(self.referrer_registries@, who) {
            referrer_registry_for(self.referrer_registries@, who).bonus_count as int
        } else {
            0
        }
    }

    /// The payout-side ledger invariants.
    pub open spec fn payouts_wf(self) -> bool {
        let regs = self.payout_registries@;
        let rcpts = self.receipts@;
        &&& unique_payout_recipients(regs)
        &&& forall|i: int, j: int|
            0 <= i < rcpts.len() && 0 <= j < rcpts.len() && i != j ==> !(rcpts[i].race_id_hash@
                == rcpts[j].race_id_hash@ && rcpts[i].recipient@ == rcpts[j].recipient@)
        &&& self.global_registry.total_pending == sum_pending(regs)
        &&& self.global_registry.total_claimed == sum_claimed(regs)
        &&& self.global_registry.total_payout_count == sum_count(regs)
        &&& self.global_registry.total_recipient_count == regs.len()
        &&& forall|i: int|
            0 <= i < regs.len() ==> regs[i].total_pending + regs[i].total_claimed
                == receipt_amounts_for(rcpts, regs[i].recipient@)
        &&& forall|i: int|
            0 <= i < regs.len() ==> regs[i].payout_count == receipt_count_for(
                rcpts,
                regs[i].recipient@,
            )
        &&& forall|i: int|
            0 <= i < rcpts.len() ==> has_payout_registry(regs, rcpts[i].recipient@)
    }

    /// The referral-side ledger invariants.
    pub open spec fn referrals_wf(self) -> bool {
        let regs = self.referrer_registries@;
        let recs = self.referral_records@;
        &&& unique_referrers(regs)
        &&& forall|i: int, j: int|
            0 <= i < recs.len() && 0 <= j < recs.len() && i != j ==> !(recs[i].race_id@
                == recs[j].race_id@ && recs[i].referrer@ == recs[j].referrer@ && recs[i].referee@
                == recs[j].referee@)
        &&& forall|i: int|
            0 <= i < regs.len() ==> regs[i].total_pending + regs[i].total_claimed
                == record_amounts_for(recs, regs[i].referrer@)
        &&& forall|i: int|
            0 <= i < regs.len() ==> regs[i].bonus_count == record_count_for(
                recs,
                regs[i].referrer@,
            )
        &&& forall|i: int|
            0 <= i < recs.len() ==> has_referrer_registry(regs, recs[i].referrer@)
    }

    /// Well-formedness: both sides' invariants. Established at bootstrap
    /// and preserved by every operation.
    pub open spec fn wf(self) -> bool {
        &&& self.payouts_wf()
        &&& self.referrals_wf()
    }

    /// Bootstraps a vault: stores the authority, mint and signer proof,
    /// starts unpaused with empty stores and a zeroed global registry.
    pub fn initialize(
        authority: [u8; 32],
        mint: [u8; 32],
        vault_signer_bump: u8,
        vault_token: [u8; 32],
        now: i64,
    ) -> (v: Vault)
        ensures
            v.wf(),
            v.config == (Config { authority, mint, vault_signer_bump, paused: false }),
            v.vault_token == vault_token,
            v.vault_balance == 0,
            v.receipts@.len() == 0,
            v.payout_registries@.len() == 0,
            v.referral_records@.len() == 0,
            v.referrer_registries@.len() == 0,
            v.global_registry == (GlobalPayoutRegistry {
                total_pending: 0,
                total_claimed: 0,
                total_payout_count: 0,
                total_recipient_count: 0,
                last_updated: now,
            }),
    {
        Vault {
            config: Config { authority, mint, vault_signer_bump, paused: false },
            vault_token,
            vault_balance: 0,
            receipts: Vec::new(),
            payout_registries: Vec::new(),
            global_registry: GlobalPayoutRegistry {
                total_pending: 0,
                total_claimed: 0,
                total_payout_count: 0,
                total_recipient_count: 0,
                last_updated: now,
            },
            referral_records: Vec::new(),
            referrer_registries: Vec::new(),
        }
    }

    /// Why a deposit would be refused, or `None` if it commits.
    pub open spec fn deposit_err(self, amount: u64) -> Option<VaultError> {
        if amount == 0 {
            Some(VaultError::ZeroAmount)
        } else if self.vault_balance + amount > u64::MAX {
            Some(VaultError::Overflow)
        } else {
            None
        }
    }

    /// Moves `amount` from a depositor into vault custody. The raw token
    /// transfer is the host's; the ledger records the balance it custodies.
    pub fn deposit(&mut self, amount: u64) -> (r: Result<(), VaultError>)
        requires
            old(self).wf(),
        ensures
            final(self).wf(),
            old(self).deposit_err(amount) matches Some(e) ==> r == Err::<(), VaultError>(e)
                && *final(self) == *old(self),
            old(self).deposit_err(amount) is None ==> r is Ok && *final(self) == (Vault {
                vault_balance: (old(self).vault_balance + amount) as u64,
                ..*old(self)
            }),
    {
        if amount == 0 {
            return Err(VaultError::ZeroAmount);
        }
        if amount > u64::MAX - self.vault_balance {
            return Err(VaultError::Overflow);
        }
        self.vault_balance = self.vault_balance + amount;
        Ok(())
    }

    /// Why a reconciliation would be refused, or `None`.
    pub open spec fn reconcile_err(self, caller: [u8; 32]) -> Option<VaultError> {
        if caller@ != self.config.authority@ {
            Some(VaultError::Unauthorized)
        } else {
            None
        }
    }

    /// Reads the custody balance and reports it for off-chain tracking.
    /// Mutates nothing; only the authority may reconcile.
    pub fn reconcile(&self, caller: [u8; 32], now: i64) -> (r: Result<ReconcileEvent, VaultError>)
        ensures
            self.reconcile_err(caller) matches Some(e) ==> r == Err::<ReconcileEvent, VaultError>(
                e,
            ),
            self.reconcile_err(caller) is None ==> r == Ok::<ReconcileEvent, VaultError>(
                (ReconcileEvent {
                    vault_token: self.vault_token,
                    balance: self.vault_balance,
                    timestamp: now,
                }),
            ),
    {
        if !bytes32_eq(&caller, &self.config.authority) {
            return Err(VaultError::Unauthorized);
        }
        Ok(ReconcileEvent { vault_token: self.vault_token, balance: self.vault_balance, timestamp: now })
    }

    /// Why an authority transfer would be refused, or `None`.
    pub open spec fn transfer_authority_err(self, caller: [u8; 32]) -> Option<VaultError> {
        if caller@ != self.config.authority@ {
            Some(VaultError::Unauthorized)
        } else {
            None
        }
    }

    /// Hands the administrative authority to a new identity. Only the
    /// current authority may do so; nothing else changes.
    pub fn transfer_authority(
        &mut self,
        caller: [u8; 32],
        new_authority: [u8; 32],
        now: i64,
    ) -> (r: Result<AuthorityTransferEvent, VaultError>)
        requires
            old(self).wf(),
        ensures
            final(self).wf(),
            old(self).transfer_authority_err(caller) matches Some(e) ==> r == Err::<
                AuthorityTransferEvent,
                VaultError,
            >(e) && *final(self) == *old(self),
            old(self).transfer_authority_err(caller) is None ==> r == Ok::<
                AuthorityTransferEvent,
                VaultError,
            >(
                (AuthorityTransferEvent {
                    old_authority: old(self).config.authority,
                    new_authority,
                    timestamp: now,
                }),
            ) && *final(self) == (Vault {
                config: (Config { authority: new_authority, ..old(self).config }),
                ..*old(self)
            }),
    {
        if !bytes32_eq(&caller, &self.config.authority) {
            return Err(VaultError::Unauthorized);
        }
        let old_authority = self.config.authority;
        self.config.authority = new_authority;
        Ok(AuthorityTransferEvent { old_authority, new_authority, timestamp: now })
    }

    /// Why a configuration update would be refused, or `None`.
    pub open spec fn update_config_err(self, caller: [u8; 32]) -> Option<VaultError> {
        if caller@ != self.config.authority@ {
            Some(VaultError::Unauthorized)
        } else {
            None
        }
    }

    /// Sets the pause flag when one is supplied; only the authority may.
    pub fn update_config(
        &mut self,
        caller: [u8; 32],
        paused: Option<bool>,
        now: i64,
    ) -> (r: Result<ConfigUpdateEvent, VaultError>)
        requires
            old(self).wf(),
        ensures
            final(self).wf(),
            old(self).update_config_err(caller) matches Some(e) ==> r == Err::<
                ConfigUpdateEvent,
                VaultError,
            >(e) && *final(self) == *old(self),
            old(self).update_config_err(caller) is None ==> {
                let new_paused = if paused is Some {
                    paused->0
                } else {
                    old(self).config.paused
                };
                r == Ok::<ConfigUpdateEvent, VaultError>(
                    (ConfigUpdateEvent { paused: new_paused, timestamp: now }),
                ) && *final(self) == (Vault {
                    config: (Config { paused: new_paused, ..old(self).config }),
                    ..*old(self)
                })
            },
    {
        if !bytes32_eq(&caller, &self.config.authority) {
            return Err(VaultError::Unauthorized);
        }
        if let Some(pause_state) = paused {
            self.config.paused = pause_state;
        }
        Ok(ConfigUpdateEvent { paused: self.config.paused, timestamp: now })
    }

    /// Why a configuration teardown would be refused, or `None`.
    pub open spec fn close_err(self, caller: [u8; 32]) -> Option<VaultError> {
        if caller@ != self.config.authority@ {
            Some(VaultError::Unauthorized)
        } else {
            None
        }
    }

    /// Approves tearing down the configuration record. The removal itself
    /// is the host's; custody funds and all registries stay untouched and
    /// remain claimable.
    pub fn close(&self, caller: [u8; 32], now: i64) -> (r: Result<ConfigCloseEvent, VaultError>)
        ensures
            self.close_err(caller) matches Some(e) ==> r == Err::<ConfigCloseEvent, VaultError>(e),
            self.close_err(caller) is None ==> r == Ok::<ConfigCloseEvent, VaultError>(
                (ConfigCloseEvent { authority: self.config.authority, timestamp: now }),
            ),
    {
        if !bytes32_eq(&caller, &self.config.authority) {
            return Err(VaultError::Unauthorized);
        }
        Ok(ConfigCloseEvent { authority: self.config.authority, timestamp: now })
    }

    /// Whether committing a payout registration would overflow one of the
    /// ledger totals it touches.
    pub open spec fn register_payout_overflows(self, recipient: [u8; 32], amount: u64) -> bool {
        ||| self.global_registry.total_pending + amount > u64::MAX
        ||| self.global_registry.total_payout_count + 1 > u32::MAX
        ||| (!has_payout_registry(self.payout_registries@, recipient@)
            && self.global_registry.total_recipient_count + 1 > u32::MAX)
        ||| self.pending_of(recipient@) + amount > u64::MAX
        ||| self.count_of(recipient@) + 1 > u32::MAX
    }

    /// Why a payout registration would be refused, or `None` if it commits.
    /// The checks run in this order; the first failure decides the error.
    pub open spec fn register_payout_err(
        self,
        caller: [u8; 32],
        race_id: Seq<u8>,
        race_id_hash: [u8; 32],
        recipient: [u8; 32],
        amount: u64,
    ) -> Option<VaultError> {
        if caller@ != self.config.authority@ {
            Some(VaultError::Unauthorized)
        } else if self.config.paused {
            Some(VaultError::ProgramPaused)
        } else if amount == 0 {
            Some(VaultError::ZeroAmount)
        } else if race_id_hash@ != digest_of(race_id) {
            Some(VaultError::InvalidRaceIdHash)
        } else if has_receipt(self.receipts@, race_id_hash@, recipient@) {
            Some(VaultError::PayoutAlreadyExists)
        } else if self.register_payout_overflows(recipient, amount) {
            Some(VaultError::Overflow)
        } else {
            None
        }
    }

    /// Registers a pending payout: validates the caller-supplied digest
    /// against the digest of the race id, writes the receipt that guards
    /// against double registration, accrues `amount` on the recipient's
    /// registry (creating it on their first payout) and on the global
    /// registry, all atomically, and reports the registration for off-chain
    /// indexing. Only the authority may register, and not while paused.
    pub fn register_payout(
        &mut self,
        caller: [u8; 32],
        race_id: Vec<u8>,
        race_id_hash: [u8; 32],
        recipient: [u8; 32],
        points: u64,
        amount: u64,
        now: i64,
    ) -> (r: Result<PayoutRegisteredEvent, VaultError>)
        requires
            old(self).wf(),
        ensures
            final(self).wf(),
            old(self).register_payout_err(caller, race_id@, race_id_hash, recipient, amount)
                matches Some(e) ==> r == Err::<PayoutRegisteredEvent, VaultError>(e)
                && *final(self) == *old(self),
            old(self).register_payout_err(caller, race_id@, race_id_hash, recipient, amount)
                is None ==> (r matches Ok(ev) && register_payout_post(
                *old(self),
                *final(self),
                race_id@,
                race_id_hash,
                recipient,
                points,
                amount,
                now,
            ) && ev.race_id@ == race_id@ && ev.race_id_hash == race_id_hash && ev.recipient
                == recipient && ev.points == points && ev.amount == amount && ev.timestamp == now),
    {
        if !bytes32_eq(&caller, &self.config.authority) {
            return Err(VaultError::Unauthorized);
        }
        if self.config.paused {
            return Err(VaultError::ProgramPaused);
        }
        if amount == 0 {
            return Err(VaultError::ZeroAmount);
        }
        let computed = compute_digest(race_id.as_slice());
        if !bytes32_eq(&computed, &race_id_hash) {
            return Err(VaultError::InvalidRaceIdHash);
        }
        if self.receipt_exists(&race_id_hash, &recipient) {
            return Err(VaultError::PayoutAlreadyExists);
        }
        let found = self.find_payout_registry(&recipient);
        if amount > u64::MAX - self.global_registry.total_pending {
            return Err(VaultError::Overflow);
        }
        if self.global_registry.total_payout_count == u32::MAX {
            return Err(VaultError::Overflow);
        }
        match found {
            Some(i) => {
                proof {
                    lemma_payout_registry_at(self.payout_registries@, i as int);
                }
                let reg = self.payout_registries[i];
                if amount > u64::MAX - reg.total_pending {
                    return Err(VaultError::Overflow);
                }
                if reg.payout_count == u32::MAX {
                    return Err(VaultError::Overflow);
                }
            },
            None => {
                if self.global_registry.total_recipient_count == u32::MAX {
                    return Err(VaultError::Overflow);
                }
            },
        }
        let is_new = found.is_none();
        let receipt = PayoutReceipt { race_id_hash, recipient, points, amount, timestamp: now };
        self.receipts.push(receipt);
        match found {
            Some(i) => {
                let reg = self.payout_registries[i];
                let updated = PayoutRegistry {
                    recipient: reg.recipient,
                    total_pending: reg.total_pending + amount,
                    total_claimed: reg.total_claimed,
                    payout_count: reg.payout_count + 1,
                    last_updated: now,
                };
                self.payout_registries[i] = updated;
                proof {
                    lemma_sums_update(old(self).payout_registries@, i as int, updated);
                }
            },
            None => {
                self.payout_registries.push(
                    PayoutRegistry {
                        recipient,
                        total_pending: amount,
                        total_claimed: 0,
                        payout_count: 1,
                        last_updated: now,
                    },
                );
                proof {
                    lemma_sums_push(
                        old(self).payout_registries@,
                        self.payout_registries@.last(),
                    );
                }
            },
        }
        self.global_registry.total_pending = self.global_registry.total_pending + amount;
        self.global_registry.total_payout_count = self.global_registry.total_payout_count + 1;
        if is_new {
            self.global_registry.total_recipient_count = self.global_registry.total_recipient_count
                + 1;
        }
        self.global_registry.last_updated = now;
        proof {
            let pre = *old(self);
            let post = *self;
            let x = receipt;
            let rcpts1 = pre.receipts@;
            let rcpts2 = post.receipts@;
            let regs1 = pre.payout_registries@;
            let regs2 = post.payout_registries@;
            let who = recipient@;
            assert forall|w: Seq<u8>|
                receipt_amounts_for(rcpts2, w) == receipt_amounts_for(rcpts1, w) + (
                if x.recipient@ == w {
                    x.amount as int
                } else {
                    0int
                }) && receipt_count_for(rcpts2, w) == receipt_count_for(rcpts1, w) + (
                if x.recipient@ == w {
                    1int
                } else {
                    0int
                }) by {
                lemma_receipt_sums_push(rcpts1, x, w);
            }
            assert forall|a: int, b: int|
                0 <= a < rcpts2.len() && 0 <= b < rcpts2.len() && a != b implies !(
                rcpts2[a].race_id_hash@ == rcpts2[b].race_id_hash@ && rcpts2[a].recipient@
                    == rcpts2[b].recipient@) by {
                if a < rcpts1.len() && b == rcpts1.len() {
                    assert(rcpts2[a] == rcpts1[a]);
                    if rcpts2[a].race_id_hash@ == x.race_id_hash@ && rcpts2[a].recipient@
                        == x.recipient@ {
                        assert(has_receipt(rcpts1, race_id_hash@, who));
                    }
                } else if b < rcpts1.len() && a == rcpts1.len() {
                    assert(rcpts2[b] == rcpts1[b]);
                    if rcpts2[b].race_id_hash@ == x.race_id_hash@ && rcpts2[b].recipient@
                        == x.recipient@ {
                        assert(has_receipt(rcpts1, race_id_hash@, who));
                    }
                }
            }
            match found {
                Some(i_found) => {
                    let i = i_found as int;
                    let upd = regs2[i];
                    assert(regs2 == regs1.update(i, upd));
                    assert(regs1[i].recipient@ == who);
                    assert(upd.recipient@ == who);
                    assert forall|a: int, b: int|
                        0 <= a < regs2.len() && 0 <= b < regs2.len() && a != b implies regs2[a].recipient@
                        != regs2[b].recipient@ by {
                        assert(regs2[a].recipient@ == regs1[a].recipient@);
                        assert(regs2[b].recipient@ == regs1[b].recipient@);
                    }
                    assert forall|k: int|
                        0 <= k < regs2.len() implies regs2[k].total_pending
                        + regs2[k].total_claimed == receipt_amounts_for(
                        rcpts2,
                        regs2[k].recipient@,
                    ) && regs2[k].payout_count == receipt_count_for(
                        rcpts2,
                        regs2[k].recipient@,
                    ) by {
                        let w = regs2[k].recipient@;
                        assert(receipt_amounts_for(rcpts2, w) == receipt_amounts_for(rcpts1, w) + (
                        if x.recipient@ == w {
                            x.amount as int
                        } else {
                            0int
                        }));
                        assert(receipt_count_for(rcpts2, w) == receipt_count_for(rcpts1, w) + (
                        if x.recipient@ == w {
                            1int
                        } else {
                            0int
                        }));
                        if k != i {
                            assert(regs2[k] == regs1[k]);
                            assert(regs1[k].recipient@ != regs1[i].recipient@);
                        }
                    }
                    assert forall|k: int|
                        0 <= k < rcpts2.len() implies has_payout_registry(
                        regs2,
                        rcpts2[k].recipient@,
                    ) by {
                        if k < rcpts1.len() {
                            assert(rcpts2[k] == rcpts1[k]);
                            assert(has_payout_registry(regs1, rcpts1[k].recipient@));
                            let j = payout_registry_index(regs1, rcpts1[k].recipient@);
                            assert(0 <= j < regs1.len() && regs1[j].recipient@
                                == rcpts1[k].recipient@);
                            assert(regs2[j].recipient@ == rcpts2[k].recipient@);
                        } else {
                            assert(regs2[i].recipient@ == who);
                        }
                    }
                    lemma_payout_registry_at(regs1, i);
                    lemma_payout_registry_at(regs2, i);
                    assert forall|w: Seq<u8>| w != who implies payout_entry_unchanged(
                        pre,
                        post,
                        w,
                    ) by {
                        if has_payout_registry(regs1, w) {
                            let j = payout_registry_index(regs1, w);
                            assert(0 <= j < regs1.len() && regs1[j].recipient@ == w);
                            lemma_payout_registry_at(regs1, j);
                            assert(j != i);
                            assert(regs2[j] == regs1[j]);
                            lemma_payout_registry_at(regs2, j);
                        }
                        if has_payout_registry(regs2, w) {
                            let j2 = payout_registry_index(regs2, w);
                            assert(0 <= j2 < regs2.len() && regs2[j2].recipient@ == w);
                            assert(j2 != i);
                            assert(regs1[j2].recipient@ == w);
                            assert(has_payout_registry(regs1, w));
                        }
                    }
                },
                None => {
                    let n = regs1.len() as int;
                    let nr = regs2[n];
                    assert(regs2 == regs1.push(nr));
                    assert(nr.recipient@ == who);
                    assert(!has_payout_registry(regs1, who));
                    assert forall|k: int| 0 <= k < regs1.len() implies regs1[k].recipient@ != who
                        by {
                        if regs1[k].recipient@ == who {
                            assert(has_payout_registry(regs1, who));
                        }
                    }
                    assert forall|k: int| 0 <= k < rcpts1.len() implies rcpts1[k].recipient@ != who
                        by {
                        assert(has_payout_registry(regs1, rcpts1[k].recipient@));
                        if rcpts1[k].recipient@ == who {
                            assert(has_payout_registry(regs1, who));
                        }
                    }
                    lemma_receipt_sums_absent(rcpts1, who);
                    assert forall|a: int, b: int|
                        0 <= a < regs2.len() && 0 <= b < regs2.len() && a != b implies regs2[a].recipient@
                        != regs2[b].recipient@ by {
                        if a < n && b < n {
                            assert(regs2[a] == regs1[a]);
                            assert(regs2[b] == regs1[b]);
                        } else if a == n && b < n {
                            assert(regs2[b] == regs1[b]);
                            assert(regs1[b].recipient@ != who);
                        } else if b == n && a < n {
                            assert(regs2[a] == regs1[a]);
                            assert(regs1[a].recipient@ != who);
                        }
                    }
                    assert forall|k: int|
                        0 <= k < regs2.len() implies regs2[k].total_pending
                        + regs2[k].total_claimed == receipt_amounts_for(
                        rcpts2,
                        regs2[k].recipient@,
                    ) && regs2[k].payout_count == receipt_count_for(
                        rcpts2,
                        regs2[k].recipient@,
                    ) by {
                        let w = regs2[k].recipient@;
                        assert(receipt_amounts_for(rcpts2, w) == receipt_amounts_for(rcpts1, w) + (
                        if x.recipient@ == w {
                            x.amount as int
                        } else {
                            0int
                        }));
                        assert(receipt_count_for(rcpts2, w) == receipt_count_for(rcpts1, w) + (
                        if x.recipient@ == w {
                            1int
                        } else {
                            0int
                        }));
                        if k < n {
                            assert(regs2[k] == regs1[k]);
                            assert(regs1[k].recipient@ != who);
                        }
                    }
                    assert forall|k: int|
                        0 <= k < rcpts2.len() implies has_payout_registry(
                        regs2,
                        rcpts2[k].recipient@,
                    ) by {
                        if k < rcpts1.len() {
                            assert(rcpts2[k] == rcpts1[k]);
                            assert(has_payout_registry(regs1, rcpts1[k].recipient@));
                            let j = payout_registry_index(regs1, rcpts1[k].recipient@);
                            assert(0 <= j < regs1.len() && regs1[j].recipient@
                                == rcpts1[k].recipient@);
                            assert(regs2[j].recipient@ == rcpts2[k].recipient@);
                        } else {
                            assert(regs2[n].recipient@ == who);
                        }
                    }
                    lemma_payout_registry_at(regs2, n);
                    assert forall|w: Seq<u8>| w != who implies payout_entry_unchanged(
                        pre,
                        post,
                        w,
                    ) by {
                        if has_payout_registry(regs1, w) {
                            let j = payout_registry_index(regs1, w);
                            assert(0 <= j < regs1.len() && regs1[j].recipient@ == w);
                            lemma_payout_registry_at(regs1, j);
                            assert(regs2[j] == regs1[j]);
                            lemma_payout_registry_at(regs2, j);
                        }
                        if has_payout_registry(regs2, w) {
                            let j2 = payout_registry_index(regs2, w);
                            assert(0 <= j2 < regs2.len() && regs2[j2].recipient@ == w);
                            assert(j2 != n);
                            assert(regs1[j2].recipient@ == w);
                            assert(has_payout_registry(regs1, w));
                        }
                    }
                },
            }
        }
        Ok(
            PayoutRegisteredEvent {
                race_id,
                race_id_hash,
                recipient,
                points,
                amount,
                timestamp: now,
            },
        )
    }

    /// Whether committing a payout claim would overflow a claimed total.
    pub open spec fn claim_payouts_overflows(self, who: Seq<u8>) -> bool {
        ||| self.claimed_of(who) + self.pending_of(who) > u64::MAX
        ||| self.global_registry.total_claimed + self.pending_of(who) > u64::MAX
    }

    /// Why a payout claim would be refused, or `None` if it commits. The
    /// checks run in this order; the first failure decides the error.
    pub open spec fn claim_pending_payouts_err(
        self,
        recipient: [u8; 32],
        recipient_account: [u8; 32],
    ) -> Option<VaultError> {
        if self.config.paused {
            Some(VaultError::ProgramPaused)
        } else if recipient@ != recipient_account@ {
            Some(VaultError::InvalidRecipient)
        } else if self.pending_of(recipient_account@) == 0 {
            Some(VaultError::NoPendingPayouts)
        } else if self.vault_balance < self.pending_of(recipient_account@) {
            Some(VaultError::InsufficientBalance)
        } else if self.claim_payouts_overflows(recipient_account@) {
            Some(VaultError::Overflow)
        } else {
            None
        }
    }

    /// Claims every pending payout of one recipient: atomically zeroes the
    /// registry's pending total, moves it to claimed there and on the
    /// global registry, and releases exactly that amount of custody to the
    /// recipient. Anyone may claim on a recipient's behalf — the `recipient`
    /// argument must only match the designated recipient account, where the
    /// funds go — but not while paused.
    pub fn claim_pending_payouts(
        &mut self,
        recipient: [u8; 32],
        recipient_account: [u8; 32],
        now: i64,
    ) -> (r: Result<PayoutsClaimedEvent, VaultError>)
        requires
            old(self).wf(),
        ensures
            final(self).wf(),
            old(self).claim_pending_payouts_err(recipient, recipient_account) matches Some(e)
                ==> r == Err::<PayoutsClaimedEvent, VaultError>(e) && *final(self) == *old(self),
            old(self).claim_pending_payouts_err(recipient, recipient_account) is None ==> (
            r matches Ok(ev) && claim_payouts_post(
                *old(self),
                *final(self),
                recipient_account@,
                now,
            ) && ev.recipient@ == recipient_account@ && ev.total_amount == old(self).pending_of(
                recipient_account@,
            ) && ev.payout_count == old(self).count_of(recipient_account@) && ev.timestamp == now),
    {
        if self.config.paused {
            return Err(VaultError::ProgramPaused);
        }
        if !bytes32_eq(&recipient, &recipient_account) {
            return Err(VaultError::InvalidRecipient);
        }
        let found = self.find_payout_registry(&recipient_account);
        match found {
            None => Err(VaultError::NoPendingPayouts),
            Some(i) => {
                proof {
                    lemma_payout_registry_at(self.payout_registries@, i as int);
                }
                let reg = self.payout_registries[i];
                if reg.total_pending == 0 {
                    return Err(VaultError::NoPendingPayouts);
                }
                if self.vault_balance < reg.total_pending {
                    return Err(VaultError::InsufficientBalance);
                }
                if reg.total_claimed > u64::MAX - reg.total_pending {
                    return Err(VaultError::Overflow);
                }
                if self.global_registry.total_claimed > u64::MAX - reg.total_pending {
                    return Err(VaultError::Overflow);
                }
                let total_pending = reg.total_pending;
                let payout_count = reg.payout_count;
                let updated = PayoutRegistry {
                    recipient: reg.recipient,
                    total_pending: 0,
                    total_claimed: reg.total_claimed + total_pending,
                    payout_count: reg.payout_count,
                    last_updated: now,
                };
                self.payout_registries[i] = updated;
                proof {
                    lemma_sums_update(old(self).payout_registries@, i as int, updated);
                    lemma_sum_pending_bound(old(self).payout_registries@, i as int);
                }
                self.global_registry.total_pending = self.global_registry.total_pending
                    - total_pending;
                self.global_registry.total_claimed = self.global_registry.total_claimed
                    + total_pending;
                self.global_registry.last_updated = now;
                self.vault_balance = self.vault_balance - total_pending;
                proof {
                    let pre = *old(self);
                    let post = *self;
                    let regs1 = pre.payout_registries@;
                    let regs2 = post.payout_registries@;
                    let rcpts = pre.receipts@;
                    let who = recipient_account@;
                    let i = i as int;
                    assert(regs2 == regs1.update(i, updated));
                    assert(regs1[i].recipient@ == who);
                    assert forall|a: int, b: int|
                        0 <= a < regs2.len() && 0 <= b < regs2.len() && a != b implies regs2[a].recipient@
                        != regs2[b].recipient@ by {
                        assert(regs2[a].recipient@ == regs1[a].recipient@);
                        assert(regs2[b].recipient@ == regs1[b].recipient@);
                    }
                    assert forall|k: int|
                        0 <= k < regs2.len() implies regs2[k].total_pending
                        + regs2[k].total_claimed == receipt_amounts_for(
                        rcpts,
                        regs2[k].recipient@,
                    ) && regs2[k].payout_count == receipt_count_for(
                        rcpts,
                        regs2[k].recipient@,
                    ) by {
                        if k != i {
                            assert(regs2[k] == regs1[k]);
                        }
                    }
                    assert forall|k: int|
                        0 <= k < rcpts.len() implies has_payout_registry(
                        regs2,
                        rcpts[k].recipient@,
                    ) by {
                        assert(has_payout_registry(regs1, rcpts[k].recipient@));
                        let j = payout_registry_index(regs1, rcpts[k].recipient@);
                        assert(0 <= j < regs1.len() && regs1[j].recipient@ == rcpts[k].recipient@);
                        assert(regs2[j].recipient@ == rcpts[k].recipient@);
                    }
                    lemma_payout_registry_at(regs1, i);
                    lemma_payout_registry_at(regs2, i);
                    assert forall|w: Seq<u8>| w != who implies payout_entry_unchanged(
                        pre,
                        post,
                        w,
                    ) by {
                        if has_payout_registry(regs1, w) {
                            let j = payout_registry_index(regs1, w);
                            assert(0 <= j < regs1.len() && regs1[j].recipient@ == w);
                            lemma_payout_registry_at(regs1, j);
                            assert(j != i);
                            assert(regs2[j] == regs1[j]);
                            lemma_payout_registry_at(regs2, j);
                        }
                        if has_payout_registry(regs2, w) {
                            let j2 = payout_registry_index(regs2, w);
                            assert(0 <= j2 < regs2.len() && regs2[j2].recipient@ == w);
                            assert(j2 != i);
                            assert(regs1[j2].recipient@ == w);
                            assert(has_payout_registry(regs1, w));
                        }
                    }
                }
                Ok(
                    PayoutsClaimedEvent {
                        recipient: reg.recipient,
                        total_amount: total_pending,
                        payout_count,
                        timestamp: now,
                    },
                )
            },
        }
    }

    /// Why a bonus claim would be refused, or `None` if it commits. The
    /// checks run in this order; the first failure decides the error.
    pub open spec fn claim_pending_bonuses_err(self, referrer: [u8; 32]) -> Option<VaultError> {
        if self.config.paused {
            Some(VaultError::ProgramPaused)
        } else if self.bonus_pending_of(referrer@) == 0 {
            Some(VaultError::NoPendingBonuses)
        } else if self.vault_balance < self.bonus_pending_of(referrer@) {
            Some(VaultError::InsufficientBalance)
        } else if self.bonus_claimed_of(referrer@) + self.bonus_pending_of(referrer@)
            > u64::MAX {
            Some(VaultError::Overflow)
        } else {
            None
        }
    }

    /// Claims every pending referral bonus of one referrer: atomically
    /// zeroes the registry's pending total, moves it to claimed, and
    /// releases exactly that amount of custody to the referrer. Anyone may
    /// claim on a referrer's behalf, but not while paused.
    pub fn claim_pending_bonuses(&mut self, referrer: [u8; 32], now: i64) -> (r: Result<
        PendingBonusesClaimedEvent,
        VaultError,
    >)
        requires
            old(self).wf(),
        ensures
            final(self).wf(),
            old(self).claim_pending_bonuses_err(referrer) matches Some(e) ==> r == Err::<
                PendingBonusesClaimedEvent,
                VaultError,
            >(e) && *final(self) == *old(self),
            old(self).claim_pending_bonuses_err(referrer) is None ==> (r matches Ok(ev)
                && claim_bonuses_post(*old(self), *final(self), referrer@, now) && ev.referrer@
                == referrer@ && ev.amount == old(self).bonus_pending_of(referrer@)
                && ev.bonus_count == old(self).bonus_count_of(referrer@) && ev.timestamp == now),
    {
        if self.config.paused {
            return Err(VaultError::ProgramPaused);
        }
        let found = self.find_referrer_registry(&referrer);
        match found {
            None => Err(VaultError::NoPendingBonuses),
            Some(i) => {
                proof {
                    lemma_referrer_registry_at(self.referrer_registries@, i as int);
                }
                let reg = self.referrer_registries[i];
                if reg.total_pending == 0 {
                    return Err(VaultError::NoPendingBonuses);
                }
                if self.vault_balance < reg.total_pending {
                    return Err(VaultError::InsufficientBalance);
                }
                if reg.total_claimed > u64::MAX - reg.total_pending {
                    return Err(VaultError::Overflow);
                }
                let amount_to_claim = reg.total_pending;
                let bonus_count = reg.bonus_count;
                let updated = ReferrerRegistry {
                    referrer: reg.referrer,
                    total_pending: 0,
                    total_claimed: reg.total_claimed + amount_to_claim,
                    bonus_count: reg.bonus_count,
                    last_updated: now,
                };
                self.referrer_registries[i] = updated;
                self.vault_balance = self.vault_balance - amount_to_claim;
                proof {
                    let pre = *old(self);
                    let post = *self;
                    let regs1 = pre.referrer_registries@;
                    let regs2 = post.referrer_registries@;
                    let recs = pre.referral_records@;
                    let who = referrer@;
                    let i = i as int;
                    assert(regs2 == regs1.update(i, updated));
                    assert(regs1[i].referrer@ == who);
                    assert forall|a: int, b: int|
                        0 <= a < regs2.len() && 0 <= b < regs2.len() && a != b implies regs2[a].referrer@
                        != regs2[b].referrer@ by {
                        assert(regs2[a].referrer@ == regs1[a].referrer@);
                        assert(regs2[b].referrer@ == regs1[b].referrer@);
                    }
                    assert forall|k: int|
                        0 <= k < regs2.len() implies regs2[k].total_pending
                        + regs2[k].total_claimed == record_amounts_for(
                        recs,
                        regs2[k].referrer@,
                    ) && regs2[k].bonus_count == record_count_for(recs, regs2[k].referrer@) by {
                        if k != i {
                            assert(regs2[k] == regs1[k]);
                        }
                    }
                    assert forall|k: int|
                        0 <= k < recs.len() implies has_referrer_registry(
                        regs2,
                        recs[k].referrer@,
                    ) by {
                        assert(has_referrer_registry(regs1, recs[k].referrer@));
                        let j = referrer_registry_index(regs1, recs[k].referrer@);
                        assert(0 <= j < regs1.len() && regs1[j].referrer@ == recs[k].referrer@);
                        assert(regs2[j].referrer@ == recs[k].referrer@);
                    }
                    lemma_referrer_registry_at(regs1, i);
                    lemma_referrer_registry_at(regs2, i);
                    assert forall|w: Seq<u8>| w != who implies referrer_entry_unchanged(
                        pre,
                        post,
                        w,
                    ) by {
                        if has_referrer_registry(regs1, w) {
                            let j = referrer_registry_index(regs1, w);
                            assert(0 <= j < regs1.len() && regs1[j].referrer@ == w);
                            lemma_referrer_registry_at(regs1, j);
                            assert(j != i);
                            assert(regs2[j] == regs1[j]);
                            lemma_referrer_registry_at(regs2, j);
                        }
                        if has_referrer_registry(regs2, w) {
                            let j2 = referrer_registry_index(regs2, w);
                            assert(0 <= j2 < regs2.len() && regs2[j2].referrer@ == w);
                            assert(j2 != i);
                            assert(regs1[j2].referrer@ == w);
                            assert(has_referrer_registry(regs1, w));
                        }
                    }
                }
                Ok(
                    PendingBonusesClaimedEvent {
                        referrer: reg.referrer,
                        amount: amount_to_claim,
                        bonus_count,
                        timestamp: now,
                    },
                )
            },
        }
    }

    /// Whether committing a referral bonus registration would overflow
    /// one of the referrer's totals.
    pub open spec fn register_referral_overflows(self, referrer: [u8; 32], amount: u64) -> bool {
        ||| self.bonus_pending_of(referrer@) + amount > u64::MAX
        ||| self.bonus_count_of(referrer@) + 1 > u32::MAX
    }

    /// Why a referral bonus registration would be refused, or `None` if it
    /// commits. The checks run in this order; the first failure decides
    /// the error.
    pub open spec fn register_referral_bonus_err(
        self,
        caller: [u8; 32],
        race_id: Seq<u8>,
        referrer: [u8; 32],
        referee: [u8; 32],
        amount: u64,
    ) -> Option<VaultError> {
        if caller@ != self.config.authority@ {
            Some(VaultError::Unauthorized)
        } else if self.config.paused {
            Some(VaultError::ProgramPaused)
        } else if amount == 0 {
            Some(VaultError::ZeroAmount)
        } else if race_id.len() > MAX_RACE_ID_LEN {
            Some(VaultError::RaceIdTooLong)
        } else if referrer@ == referee@ {
            Some(VaultError::SelfReferralNotAllowed)
        } else if has_record(self.referral_records@, race_id, referrer@, referee@) {
            Some(VaultError::BonusAlreadyExists)
        } else if self.register_referral_overflows(referrer, amount) {
            Some(VaultError::Overflow)
        } else {
            None
        }
    }

    /// Registers a referral bonus: forbids self-referrals and over-long
    /// race ids, writes the record that guards against double registration,
    /// and accrues `amount` on the referrer's registry (creating it on
    /// their first bonus), all atomically. Only the authority may register,
    /// and not while paused.
    pub fn register_referral_bonus(
        &mut self,
        caller: [u8; 32],
        race_id: Vec<u8>,
        referrer: [u8; 32],
        referee: [u8; 32],
        amount: u64,
        now: i64,
    ) -> (r: Result<ReferralBonusRegisteredEvent, VaultError>)
        requires
            old(self).wf(),
        ensures
            final(self).wf(),
            old(self).register_referral_bonus_err(caller, race_id@, referrer, referee, amount)
                matches Some(e) ==> r == Err::<ReferralBonusRegisteredEvent, VaultError>(e)
                && *final(self) == *old(self),
            old(self).register_referral_bonus_err(caller, race_id@, referrer, referee, amount)
                is None ==> (r matches Ok(ev) && register_referral_post(
                *old(self),
                *final(self),
                race_id@,
                referrer,
                referee,
                amount,
                now,
            ) && ev.race_id@ == race_id@ && ev.referrer == referrer && ev.referee == referee
                && ev.amount == amount && ev.timestamp == now),
    {
        if !bytes32_eq(&caller, &self.config.authority) {
            return Err(VaultError::Unauthorized);
        }
        if self.config.paused {
            return Err(VaultError::ProgramPaused);
        }
        if amount == 0 {
            return Err(VaultError::ZeroAmount);
        }
        if race_id.len() > MAX_RACE_ID_LEN {
            return Err(VaultError::RaceIdTooLong);
        }
        if bytes32_eq(&referrer, &referee) {
            return Err(VaultError::SelfReferralNotAllowed);
        }
        if self.record_exists(&race_id, &referrer, &referee) {
            return Err(VaultError::BonusAlreadyExists);
        }
        let found = self.find_referrer_registry(&referrer);
        match found {
            Some(i) => {
                proof {
                    lemma_referrer_registry_at(self.referrer_registries@, i as int);
                }
                let reg = self.referrer_registries[i];
                if amount > u64::MAX - reg.total_pending {
                    return Err(VaultError::Overflow);
                }
                if reg.bonus_count == u32::MAX {
                    return Err(VaultError::Overflow);
                }
            },
            None => {},
        }
        let race_id_for_event = race_id.clone();
        proof {
            assert(race_id_for_event@ =~= race_id@);
        }
        let record = ReferralBonus {
            race_id,
            referrer,
            referee,
            amount,
            claimed: false,
            timestamp: now,
        };
        self.referral_records.push(record);
        match found {
            Some(i) => {
                let reg = self.referrer_registries[i];
                let updated = ReferrerRegistry {
                    referrer: reg.referrer,
                    total_pending: reg.total_pending + amount,
                    total_claimed: reg.total_claimed,
                    bonus_count: reg.bonus_count + 1,
                    last_updated: now,
                };
                self.referrer_registries[i] = updated;
            },
            None => {
                self.referrer_registries.push(
                    ReferrerRegistry {
                        referrer,
                        total_pending: amount,
                        total_claimed: 0,
                        bonus_count: 1,
                        last_updated: now,
                    },
                );
            },
        }
        proof {
            let pre = *old(self);
            let post = *self;
            let x = post.referral_records@.last();
            let recs1 = pre.referral_records@;
            let recs2 = post.referral_records@;
            let regs1 = pre.referrer_registries@;
            let regs2 = post.referrer_registries@;
            let who = referrer@;
            assert(x.referrer@ == who);
            assert forall|w: Seq<u8>|
                record_amounts_for(recs2, w) == record_amounts_for(recs1, w) + (if x.referrer@
                    == w {
                    x.amount as int
                } else {
                    0int
                }) && record_count_for(recs2, w) == record_count_for(recs1, w) + (if x.referrer@
                    == w {
                    1int
                } else {
                    0int
                }) by {
                lemma_record_sums_push(recs1, x, w);
            }
            assert forall|a: int, b: int|
                0 <= a < recs2.len() && 0 <= b < recs2.len() && a != b implies !(recs2[a].race_id@
                == recs2[b].race_id@ && recs2[a].referrer@ == recs2[b].referrer@
                && recs2[a].referee@ == recs2[b].referee@) by {
                if a < recs1.len() && b == recs1.len() {
                    assert(recs2[a] == recs1[a]);
                    if recs2[a].race_id@ == x.race_id@ && recs2[a].referrer@ == x.referrer@
                        && recs2[a].referee@ == x.referee@ {
                        assert(has_record(recs1, x.race_id@, who, referee@));
                    }
                } else if b < recs1.len() && a == recs1.len() {
                    assert(recs2[b] == recs1[b]);
                    if recs2[b].race_id@ == x.race_id@ && recs2[b].referrer@ == x.referrer@
                        && recs2[b].referee@ == x.referee@ {
                        assert(has_record(recs1, x.race_id@, who, referee@));
                    }
                }
            }
            match found {
                Some(i_found) => {
                    let i = i_found as int;
                    let upd = regs2[i];
                    assert(regs2 == regs1.update(i, upd));
                    assert(regs1[i].referrer@ == who);
                    assert forall|a: int, b: int|
                        0 <= a < regs2.len() && 0 <= b < regs2.len() && a != b implies regs2[a].referrer@
                        != regs2[b].referrer@ by {
                        assert(regs2[a].referrer@ == regs1[a].referrer@);
                        assert(regs2[b].referrer@ == regs1[b].referrer@);
                    }
                    assert forall|k: int|
                        0 <= k < regs2.len() implies regs2[k].total_pending
                        + regs2[k].total_claimed == record_amounts_for(
                        recs2,
                        regs2[k].referrer@,
                    ) && regs2[k].bonus_count == record_count_for(recs2, regs2[k].referrer@) by {
                        let w = regs2[k].referrer@;
                        assert(record_amounts_for(recs2, w) == record_amounts_for(recs1, w) + (
                        if x.referrer@ == w {
                            x.amount as int
                        } else {
                            0int
                        }));
                        assert(record_count_for(recs2, w) == record_count_for(recs1, w) + (
                        if x.referrer@ == w {
                            1int
                        } else {
                            0int
                        }));
                        if k != i {
                            assert(regs2[k] == regs1[k]);
                            assert(regs1[k].referrer@ != regs1[i].referrer@);
                        }
                    }
                    assert forall|k: int|
                        0 <= k < recs2.len() implies has_referrer_registry(
                        regs2,
                        recs2[k].referrer@,
                    ) by {
                        if k < recs1.len() {
                            assert(recs2[k] == recs1[k]);
                            assert(has_referrer_registry(regs1, recs1[k].referrer@));
                            let j = referrer_registry_index(regs1, recs1[k].referrer@);
                            assert(0 <= j < regs1.len() && regs1[j].referrer@
                                == recs1[k].referrer@);
                            assert(regs2[j].referrer@ == recs2[k].referrer@);
                        } else {
                            assert(regs2[i].referrer@ == who);
                        }
                    }
                    lemma_referrer_registry_at(regs1, i);
                    lemma_referrer_registry_at(regs2, i);
                    assert forall|w: Seq<u8>| w != who implies referrer_entry_unchanged(
                        pre,
                        post,
                        w,
                    ) by {
                        if has_referrer_registry(regs1, w) {
                            let j = referrer_registry_index(regs1, w);
                            assert(0 <= j < regs1.len() && regs1[j].referrer@ == w);
                            lemma_referrer_registry_at(regs1, j);
                            assert(j != i);
                            assert(regs2[j] == regs1[j]);
                            lemma_referrer_registry_at(regs2, j);
                        }
                        if has_referrer_registry(regs2, w) {
                            let j2 = referrer_registry_index(regs2, w);
                            assert(0 <= j2 < regs2.len() && regs2[j2].referrer@ == w);
                            assert(j2 != i);
                            assert(regs1[j2].referrer@ == w);
                            assert(has_referrer_registry(regs1, w));
                        }
                    }
                },
                None => {
                    let n = regs1.len() as int;
                    let nr = regs2[n];
                    assert(regs2 == regs1.push(nr));
                    assert(nr.referrer@ == who);
                    assert(!has_referrer_registry(regs1, who));
                    assert forall|k: int| 0 <= k < regs1.len() implies regs1[k].referrer@ != who
                        by {
                        if regs1[k].referrer@ == who {
                            assert(has_referrer_registry(regs1, who));
                        }
                    }
                    assert forall|k: int| 0 <= k < recs1.len() implies recs1[k].referrer@ != who
                        by {
                        assert(has_referrer_registry(regs1, recs1[k].referrer@));
                        if recs1[k].referrer@ == who {
                            assert(has_referrer_registry(regs1, who));
                        }
                    }
                    lemma_record_sums_absent(recs1, who);
                    assert forall|a: int, b: int|
                        0 <= a < regs2.len() && 0 <= b < regs2.len() && a != b implies regs2[a].referrer@
                        != regs2[b].referrer@ by {
                        if a < n && b < n {
                            assert(regs2[a] == regs1[a]);
                            assert(regs2[b] == regs1[b]);
                        } else if a == n && b < n {
                            assert(regs2[b] == regs1[b]);
                            assert(regs1[b].referrer@ != who);
                        } else if b == n && a < n {
                            assert(regs2[a] == regs1[a]);
                            assert(regs1[a].referrer@ != who);
                        }
                    }
                    assert forall|k: int|
                        0 <= k < regs2.len() implies regs2[k].total_pending
                        + regs2[k].total_claimed == record_amounts_for(
                        recs2,
                        regs2[k].referrer@,
                    ) && regs2[k].bonus_count == record_count_for(recs2, regs2[k].referrer@) by {
                        let w = regs2[k].referrer@;
                        assert(record_amounts_for(recs2, w) == record_amounts_for(recs1, w) + (
                        if x.referrer@ == w {
                            x.amount as int
                        } else {
                            0int
                        }));
                        assert(record_count_for(recs2, w) == record_count_for(recs1, w) + (
                        if x.referrer@ == w {
                            1int
                        } else {
                            0int
                        }));
                        if k < n {
                            assert(regs2[k] == regs1[k]);
                            assert(regs1[k].referrer@ != who);
                        }
                    }
                    assert forall|k: int|
                        0 <= k < recs2.len() implies has_referrer_registry(
                        regs2,
                        recs2[k].referrer@,
                    ) by {
                        if k < recs1.len() {
                            assert(recs2[k] == recs1[k]);
                            assert(has_referrer_registry(regs1, recs1[k].referrer@));
                            let j = referrer_registry_index(regs1, recs1[k].referrer@);
                            assert(0 <= j < regs1.len() && regs1[j].referrer@
                                == recs1[k].referrer@);
                            assert(regs2[j].referrer@ == recs2[k].referrer@);
                        } else {
                            assert(regs2[n].referrer@ == who);
                        }
                    }
                    lemma_referrer_registry_at(regs2, n);
                    assert forall|w: Seq<u8>| w != who implies referrer_entry_unchanged(
                        pre,
                        post,
                        w,
                    ) by {
                        if has_referrer_registry(regs1, w) {
                            let j = referrer_registry_index(regs1, w);
                            assert(0 <= j < regs1.len() && regs1[j].referrer@ == w);
                            lemma_referrer_registry_at(regs1, j);
                            assert(regs2[j] == regs1[j]);
                            lemma_referrer_registry_at(regs2, j);
                        }
                        if has_referrer_registry(regs2, w) {
                            let j2 = referrer_registry_index(regs2, w);
                            assert(0 <= j2 < regs2.len() && regs2[j2].referrer@ == w);
                            assert(j2 != n);
                            assert(regs1[j2].referrer@ == w);
                            assert(has_referrer_registry(regs1, w));
                        }
                    }
                },
            }
        }
        Ok(
            ReferralBonusRegisteredEvent {
                race_id: race_id_for_event,
                referrer,
                referee,
                amount,
                timestamp: now,
            },
        )
    }

    /// Snapshot of one recipient's payout registry. A recipient that never
    /// received a payout reads as an unwritten record: the zero sentinel
    /// identity with zeroed totals. Succeeds even while paused.
    pub fn get_pending_payouts(&self, recipient: [u8; 32]) -> (r: Result<
        PayoutRegistry,
        VaultError,
    >)
        requires
            self.wf(),
        ensures
            r matches Ok(reg) && reg == (if has_payout_registry(
                self.payout_registries@,
                recipient@,
            ) {
                payout_registry_for(self.payout_registries@, recipient@)
            } else {
                (PayoutRegistry {
                    recipient: ZERO_ADDRESS,
                    total_pending: 0,
                    total_claimed: 0,
                    payout_count: 0,
                    last_updated: 0,
                })
            }),
    {
        match self.find_payout_registry(&recipient) {
            Some(i) => {
                proof {
                    lemma_payout_registry_at(self.payout_registries@, i as int);
                }
                Ok(self.payout_registries[i])
            },
            None => Ok(
                PayoutRegistry {
                    recipient: ZERO_ADDRESS,
                    total_pending: 0,
                    total_claimed: 0,
                    payout_count: 0,
                    last_updated: 0,
                },
            ),
        }
    }

    /// Snapshot of one referrer's registry; an unknown referrer reads as an
    /// unwritten record. Succeeds even while paused.
    pub fn get_pending_bonuses(&self, referrer: [u8; 32]) -> (r: Result<
        ReferrerRegistry,
        VaultError,
    >)
        requires
            self.wf(),
        ensures
            r matches Ok(reg) && reg == (if has_referrer_registry(
                self.referrer_registries@,
                referrer@,
            ) {
                referrer_registry_for(self.referrer_registries@, referrer@)
            } else {
                (ReferrerRegistry {
                    referrer: ZERO_ADDRESS,
                    total_pending: 0,
                    total_claimed: 0,
                    bonus_count: 0,
                    last_updated: 0,
                })
            }),
    {
        match self.find_referrer_registry(&referrer) {
            Some(i) => {
                proof {
                    lemma_referrer_registry_at(self.referrer_registries@, i as int);
                }
                Ok(self.referrer_registries[i])
            },
            None => Ok(
                ReferrerRegistry {
                    referrer: ZERO_ADDRESS,
                    total_pending: 0,
                    total_claimed: 0,
                    bonus_count: 0,
                    last_updated: 0,
                },
            ),
        }
    }

    /// Same snapshot as [`Self::get_pending_bonuses`]: the registry carries
    /// pending and claimed totals alike, so both reads project the same
    /// record.
    pub fn get_all_bonuses(&self, referrer: [u8; 32]) -> (r: Result<ReferrerRegistry, VaultError>)
        requires
            self.wf(),
        ensures
            r matches Ok(reg) && reg == (if has_referrer_registry(
                self.referrer_registries@,
                referrer@,
            ) {
                referrer_registry_for(self.referrer_registries@, referrer@)
            } else {
                (ReferrerRegistry {
                    referrer: ZERO_ADDRESS,
                    total_pending: 0,
                    total_claimed: 0,
                    bonus_count: 0,
                    last_updated: 0,
                })
            }),
    {
        self.get_pending_bonuses(referrer)
    }

    /// Snapshot of the vault-wide payout aggregate. Succeeds even while
    /// paused.
    pub fn get_global_payout_stats(&self) -> (r: Result<GlobalPayoutRegistry, VaultError>)
        ensures
            r == Ok::<GlobalPayoutRegistry, VaultError>(self.global_registry),
    {
        Ok(self.global_registry)
    }

    /// Index of the recipient's payout registry, if one exists.
    fn find_payout_registry(&self, who: &[u8; 32]) -> (r: Option<usize>)
        ensures
            r matches Some(i) ==> i < self.payout_registries@.len()
                && self.payout_registries@[i as int].recipient@ == who@,
            r is None ==> !has_payout_registry(self.payout_registries@, who@),
    {
        let mut k: usize = 0;
        while k < self.payout_registries.len()
            invariant
                k <= self.payout_registries@.len(),
                forall|j: int| 0 <= j < k ==> self.payout_registries@[j].recipient@ != who@,
            decreases self.payout_registries@.len() - k,
        {
            if bytes32_eq(&self.payout_registries[k].recipient, who) {
                return Some(k);
            }
            k += 1;
        }
        None
    }

    /// Index of the referrer's registry, if one exists.
    fn find_referrer_registry(&self, who: &[u8; 32]) -> (r: Option<usize>)
        ensures
            r matches Some(i) ==> i < self.referrer_registries@.len()
                && self.referrer_registries@[i as int].referrer@ == who@,
            r is None ==> !has_referrer_registry(self.referrer_registries@, who@),
    {
        let mut k: usize = 0;
        while k < self.referrer_registries.len()
            invariant
                k <= self.referrer_registries@.len(),
                forall|j: int| 0 <= j < k ==> self.referrer_registries@[j].referrer@ != who@,
            decreases self.referrer_registries@.len() - k,
        {
            if bytes32_eq(&self.referrer_registries[k].referrer, who) {
                return Some(k);
            }
            k += 1;
        }
        None
    }

    /// Whether a receipt for this (race id digest, recipient) pair exists.
    fn receipt_exists(&self, h: &[u8; 32], who: &[u8; 32]) -> (r: bool)
        ensures
            r == has_receipt(self.receipts@, h@, who@),
    {
        let mut k: usize = 0;
        while k < self.receipts.len()
            invariant
                k <= self.receipts@.len(),
                forall|j: int|
                    0 <= j < k ==> !(self.receipts@[j].race_id_hash@ == h@
                        && self.receipts@[j].recipient@ == who@),
            decreases self.receipts@.len() - k,
        {
            if bytes32_eq(&self.receipts[k].race_id_hash, h) && bytes32_eq(
                &self.receipts[k].recipient,
                who,
            ) {
                return true;
            }
            k += 1;
        }
        false
    }

    /// Whether a record for this (race id, referrer, referee) triple exists.
    fn record_exists(&self, race_id: &Vec<u8>, referrer: &[u8; 32], referee: &[u8; 32]) -> (r:
        bool)
        ensures
            r == has_record(self.referral_records@, race_id@, referrer@, referee@),
    {
        let mut k: usize = 0;
        while k < self.referral_records.len()
            invariant
                k <= self.referral_records@.len(),
                forall|j: int|
                    0 <= j < k ==> !(self.referral_records@[j].race_id@ == race_id@
                        && self.referral_records@[j].referrer@ == referrer@
                        && self.referral_records@[j].referee@ == referee@),
            decreases self.referral_records@.len() - k,
        {
            if bytes_eq(&self.referral_records[k].race_id, race_id) && bytes32_eq(
                &self.referral_records[k].referrer,
                referrer,
            ) && bytes32_eq(&self.referral_records[k].referee, referee) {
                return true;
            }
            k += 1;
        }
        false
    }
}

} // verus!
