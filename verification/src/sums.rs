//! Sums and membership over the ledger's stores: totals of the payout
//! registries (which the global registry must mirror), and per-owner sums
//! over the append-only receipt and referral record stores.

use vstd::prelude::*;

use crate::state::{PayoutReceipt, PayoutRegistry, ReferralBonus};

verus! {

/// Sum of `total_pending` over a sequence of payout registries.
pub open spec fn sum_pending(s: Seq<PayoutRegistry>) -> int
    decreases s.len(),
{
    if s.len() == 0 {
        0
    } else {
        sum_pending(s.drop_last()) + s.last().total_pending
    }
}

/// Sum of `total_claimed` over a sequence of payout registries.
pub open spec fn sum_claimed(s: Seq<PayoutRegistry>) -> int
    decreases s.len(),
{
    if s.len() == 0 {
        0
    } else {
        sum_claimed(s.drop_last()) + s.last().total_claimed
    }
}

/// Sum of `payout_count` over a sequence of payout registries.
pub open spec fn sum_count(s: Seq<PayoutRegistry>) -> int
    decreases s.len(),
{
    if s.len() == 0 {
        0
    } else {
        sum_count(s.drop_last()) + s.last().payout_count
    }
}

/// Appending a registry adds its totals to the sums.
pub proof fn lemma_sums_push(s: Seq<PayoutRegistry>, r: PayoutRegistry)
    ensures
        sum_pending(s.push(r)) == sum_pending(s) + r.total_pending,
        sum_claimed(s.push(r)) == sum_claimed(s) + r.total_claimed,
        sum_count(s.push(r)) == sum_count(s) + r.payout_count,
{
    assert(s.push(r).drop_last() =~= s);
}

/// Replacing the registry at one index shifts each sum by the difference
/// at that index.
pub proof fn lemma_sums_update(s: Seq<PayoutRegistry>, i: int, r: PayoutRegistry)
    requires
        0 <= i < s.len(),
    ensures
        sum_pending(s.update(i, r)) == sum_pending(s) - s[i].total_pending + r.total_pending,
        sum_claimed(s.update(i, r)) == sum_claimed(s) - s[i].total_claimed + r.total_claimed,
        sum_count(s.update(i, r)) == sum_count(s) - s[i].payout_count + r.payout_count,
    decreases s.len(),
{
    let t = s.update(i, r);
    if i == s.len() - 1 {
        assert(t.drop_last() =~= s.drop_last());
    } else {
        assert(t.drop_last() =~= s.drop_last().update(i, r));
        lemma_sums_update(s.drop_last(), i, r);
    }
}

/// Every sum over registries is non-negative.
pub proof fn lemma_sums_nonneg(s: Seq<PayoutRegistry>)
    ensures
        sum_pending(s) >= 0,
        sum_claimed(s) >= 0,
        sum_count(s) >= 0,
    decreases s.len(),
{
    if s.len() > 0 {
        lemma_sums_nonneg(s.drop_last());
    }
}

/// Each registry's pending total is bounded by the sum of all of them.
pub proof fn lemma_sum_pending_bound(s: Seq<PayoutRegistry>, i: int)
    requires
        0 <= i < s.len(),
    ensures
        sum_pending(s) >= s[i].total_pending,
    decreases s.len(),
{
    if i == s.len() - 1 {
        lemma_sums_nonneg(s.drop_last());
    } else {
        lemma_sum_pending_bound(s.drop_last(), i);
    }
}

/// Whether the receipt store holds a receipt for this
/// (race id digest, recipient) pair.
pub open spec fn has_receipt(s: Seq<PayoutReceipt>, h: Seq<u8>, who: Seq<u8>) -> bool {
    exists|i: int| 0 <= i < s.len() && s[i].race_id_hash@ == h && s[i].recipient@ == who
}

/// Sum of the amounts of all receipts written for one recipient.
pub open spec fn receipt_amounts_for(s: Seq<PayoutReceipt>, who: Seq<u8>) -> int
    decreases s.len(),
{
    if s.len() == 0 {
        0
    } else {
        receipt_amounts_for(s.drop_last(), who) + if s.last().recipient@ == who {
            s.last().amount as int
        } else {
            0
        }
    }
}

/// Number of receipts written for one recipient.
pub open spec fn receipt_count_for(s: Seq<PayoutReceipt>, who: Seq<u8>) -> int
    decreases s.len(),
{
    if s.len() == 0 {
        0
    } else {
        receipt_count_for(s.drop_last(), who) + if s.last().recipient@ == who {
            1int
        } else {
            0
        }
    }
}

/// Appending a receipt adds to the sums of its recipient alone.
pub proof fn lemma_receipt_sums_push(s: Seq<PayoutReceipt>, x: PayoutReceipt, who: Seq<u8>)
    ensures
        receipt_amounts_for(s.push(x), who) == receipt_amounts_for(s, who) + if x.recipient@
            == who {
            x.amount as int
        } else {
            0
        },
        receipt_count_for(s.push(x), who) == receipt_count_for(s, who) + if x.recipient@ == who {
            1int
        } else {
            0
        },
{
    assert(s.push(x).drop_last() =~= s);
}

/// A recipient with no receipts has zero sums.
pub proof fn lemma_receipt_sums_absent(s: Seq<PayoutReceipt>, who: Seq<u8>)
    requires
        forall|i: int| 0 <= i < s.len() ==> s[i].recipient@ != who,
    ensures
        receipt_amounts_for(s, who) == 0,
        receipt_count_for(s, who) == 0,
    decreases s.len(),
{
    if s.len() > 0 {
        lemma_receipt_sums_absent(s.drop_last(), who);
    }
}

/// Whether the referral record store holds a record for this
/// (race id, referrer, referee) triple.
pub open spec fn has_record(
    s: Seq<ReferralBonus>,
    race_id: Seq<u8>,
    referrer: Seq<u8>,
    referee: Seq<u8>,
) -> bool {
    exists|i: int|
        0 <= i < s.len() && s[i].race_id@ == race_id && s[i].referrer@ == referrer
            && s[i].referee@ == referee
}

/// Sum of the amounts of all referral records written for one referrer.
pub open spec fn record_amounts_for(s: Seq<ReferralBonus>, who: Seq<u8>) -> int
    decreases s.len(),
{
    if s.len() == 0 {
        0
    } else {
        record_amounts_for(s.drop_last(), who) + if s.last().referrer@ == who {
            s.last().amount as int
        } else {
            0
        }
    }
}

/// Number of referral records written for one referrer.
pub open spec fn record_count_for(s: Seq<ReferralBonus>, who: Seq<u8>) -> int
    decreases s.len(),
{
    if s.len() == 0 {
        0
    } else {
        record_count_for(s.drop_last(), who) + if s.last().referrer@ == who {
            1int
        } else {
            0
        }
    }
}

/// Appending a record adds to the sums of its referrer alone.
pub proof fn lemma_record_sums_push(s: Seq<ReferralBonus>, x: ReferralBonus, who: Seq<u8>)
    ensures
        record_amounts_for(s.push(x), who) == record_amounts_for(s, who) + if x.referrer@ == who {
            x.amount as int
        } else {
            0
        },
        record_count_for(s.push(x), who) == record_count_for(s, who) + if x.referrer@ == who {
            1int
        } else {
            0
        },
{
    assert(s.push(x).drop_last() =~= s);
}

/// A referrer with no records has zero sums.
pub proof fn lemma_record_sums_absent(s: Seq<ReferralBonus>, who: Seq<u8>)
    requires
        forall|i: int| 0 <= i < s.len() ==> s[i].referrer@ != who,
    ensures
        record_amounts_for(s, who) == 0,
        record_count_for(s, who) == 0,
    decreases s.len(),
{
    if s.len() > 0 {
        lemma_record_sums_absent(s.drop_last(), who);
    }
}

} // verus!
