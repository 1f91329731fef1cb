//! Ledger-wide laws, stated over the vault's contracts and proved once
//! and for all. Every operation preserves well-formedness, so each law
//! holds after any sequence of registrations and claims.

use vstd::prelude::*;

use crate::errors::VaultError;
use crate::lookup::{has_payout_registry, has_referrer_registry, payout_registry_index, referrer_registry_index};
use crate::sums::{
    has_receipt, has_record, lemma_receipt_sums_absent, lemma_record_sums_absent,
    receipt_amounts_for, receipt_count_for, record_amounts_for, record_count_for, sum_claimed,
    sum_count, sum_pending,
};
use crate::vault::{register_payout_post, register_referral_post, Vault};

verus! {

/// Conservation: in any well-formed vault, what a recipient is owed plus
/// what they have claimed equals the sum of the amounts of every payout
/// receipt ever written for them — and likewise for a referrer and their
/// referral records. Since receipts are written exactly by successful
/// registrations, pending plus claimed always equals the total of the
/// amounts successfully registered.
pub proof fn lemma_conservation(v: Vault, who: Seq<u8>)
    requires
        v.wf(),
    ensures
        v.pending_of(who) + v.claimed_of(who) == receipt_amounts_for(v.receipts@, who),
        v.count_of(who) == receipt_count_for(v.receipts@, who),
        v.bonus_pending_of(who) + v.bonus_claimed_of(who) == record_amounts_for(
            v.referral_records@,
            who,
        ),
        v.bonus_count_of(who) == record_count_for(v.referral_records@, who),
{
    if has_payout_registry(v.payout_registries@, who) {
        let i = payout_registry_index(v.payout_registries@, who);
        assert(0 <= i < v.payout_registries@.len() && v.payout_registries@[i].recipient@ == who);
    } else {
        assert forall|k: int| 0 <= k < v.receipts@.len() implies v.receipts@[k].recipient@ != who
            by {
            if v.receipts@[k].recipient@ == who {
                assert(has_payout_registry(v.payout_registries@, who));
            }
        }
        lemma_receipt_sums_absent(v.receipts@, who);
    }
    if has_referrer_registry(v.referrer_registries@, who) {
        let i = referrer_registry_index(v.referrer_registries@, who);
        assert(0 <= i < v.referrer_registries@.len() && v.referrer_registries@[i].referrer@
            == who);
    } else {
        assert forall|k: int|
            0 <= k < v.referral_records@.len() implies v.referral_records@[k].referrer@ != who by {
            if v.referral_records@[k].referrer@ == who {
                assert(has_referrer_registry(v.referrer_registries@, who));
            }
        }
        lemma_record_sums_absent(v.referral_records@, who);
    }
}

/// Global consistency: in any well-formed vault the global registry's
/// totals equal the sums over all per-recipient payout registries, and its
/// recipient count equals the number of such registries.
pub proof fn lemma_global_consistency(v: Vault)
    requires
        v.wf(),
    ensures
        v.global_registry.total_pending == sum_pending(v.payout_registries@),
        v.global_registry.total_claimed == sum_claimed(v.payout_registries@),
        v.global_registry.total_payout_count == sum_count(v.payout_registries@),
        v.global_registry.total_recipient_count == v.payout_registries@.len(),
{
}

/// Idempotent registration: after a payout registration commits, the very
/// same registration is refused as a duplicate — so repeating it leaves
/// the vault unchanged and the recipient's totals reflect exactly one
/// accrual.
pub proof fn lemma_register_payout_idempotent(
    pre: Vault,
    post: Vault,
    caller: [u8; 32],
    race_id: Seq<u8>,
    race_id_hash: [u8; 32],
    recipient: [u8; 32],
    points: u64,
    amount: u64,
    now: i64,
)
    requires
        pre.wf(),
        pre.register_payout_err(caller, race_id, race_id_hash, recipient, amount) is None,
        register_payout_post(pre, post, race_id, race_id_hash, recipient, points, amount, now),
    ensures
        post.register_payout_err(caller, race_id, race_id_hash, recipient, amount) == Some(
            VaultError::PayoutAlreadyExists,
        ),
        post.pending_of(recipient@) == pre.pending_of(recipient@) + amount,
{
    let n = pre.receipts@.len() as int;
    assert(post.receipts@[n].race_id_hash@ == race_id_hash@ && post.receipts@[n].recipient@
        == recipient@);
    assert(has_receipt(post.receipts@, race_id_hash@, recipient@));
}

/// Idempotent referral registration: after a referral bonus registration
/// commits, the very same registration is refused as a duplicate, and the
/// referrer's totals reflect exactly one accrual.
pub proof fn lemma_register_referral_idempotent(
    pre: Vault,
    post: Vault,
    caller: [u8; 32],
    race_id: Seq<u8>,
    referrer: [u8; 32],
    referee: [u8; 32],
    amount: u64,
    now: i64,
)
    requires
        pre.wf(),
        pre.register_referral_bonus_err(caller, race_id, referrer, referee, amount) is None,
        register_referral_post(pre, post, race_id, referrer, referee, amount, now),
    ensures
        post.register_referral_bonus_err(caller, race_id, referrer, referee, amount) == Some(
            VaultError::BonusAlreadyExists,
        ),
        post.bonus_pending_of(referrer@) == pre.bonus_pending_of(referrer@) + amount,
{
    let n = pre.referral_records@.len() as int;
    assert(post.referral_records@[n].race_id@ == race_id && post.referral_records@[n].referrer@
        == referrer@ && post.referral_records@[n].referee@ == referee@);
    assert(has_record(post.referral_records@, race_id, referrer@, referee@));
}

} // verus!
