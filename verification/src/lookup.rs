//! Keyed lookup into the registry stores. Each store holds at most one
//! registry per owner, so the owner's entry is well defined; the lemmas
//! tie the abstract lookup to a concrete index.

use vstd::prelude::*;

use crate::state::{PayoutRegistry, ReferrerRegistry};

verus! {

/// No two payout registries share a recipient.
pub open spec fn unique_payout_recipients(s: Seq<PayoutRegistry>) -> bool {
    forall|i: int, j: int|
        0 <= i < s.len() && 0 <= j < s.len() && i != j ==> s[i].recipient@ != s[j].recipient@
}

/// Whether some payout registry belongs to this recipient.
pub open spec fn has_payout_registry(s: Seq<PayoutRegistry>, who: Seq<u8>) -> bool {
    exists|i: int| 0 <= i < s.len() && s[i].recipient@ == who
}

/// The index of the recipient's payout registry (meaningful only when one
/// exists and recipients are unique).
pub open spec fn payout_registry_index(s: Seq<PayoutRegistry>, who: Seq<u8>) -> int {
    choose|i: int| 0 <= i < s.len() && s[i].recipient@ == who
}

/// The recipient's payout registry (meaningful only when one exists).
pub open spec fn payout_registry_for(s: Seq<PayoutRegistry>, who: Seq<u8>) -> PayoutRegistry {
    s[payout_registry_index(s, who)]
}

/// Under uniqueness, the registry at any index is the one the lookup finds
/// for its recipient.
pub proof fn lemma_payout_registry_at(s: Seq<PayoutRegistry>, i: int)
    requires
        unique_payout_recipients(s),
        0 <= i < s.len(),
    ensures
        has_payout_registry(s, s[i].recipient@),
        payout_registry_index(s, s[i].recipient@) == i,
        payout_registry_for(s, s[i].recipient@) == s[i],
{
    assert(has_payout_registry(s, s[i].recipient@));
    let j = payout_registry_index(s, s[i].recipient@);
    assert(0 <= j < s.len() && s[j].recipient@ == s[i].recipient@);
    assert(j == i);
}

/// No two referrer registries share a referrer.
pub open spec fn unique_referrers(s: Seq<ReferrerRegistry>) -> bool {
    forall|i: int, j: int|
        0 <= i < s.len() && 0 <= j < s.len() && i != j ==> s[i].referrer@ != s[j].referrer@
}

/// Whether some referrer registry belongs to this referrer.
pub open spec fn has_referrer_registry(s: Seq<ReferrerRegistry>, who: Seq<u8>) -> bool {
    exists|i: int| 0 <= i < s.len() && s[i].referrer@ == who
}

/// The index of the referrer's registry (meaningful only when one exists
/// and referrers are unique).
pub open spec fn referrer_registry_index(s: Seq<ReferrerRegistry>, who: Seq<u8>) -> int {
    choose|i: int| 0 <= i < s.len() && s[i].referrer@ == who
}

/// The referrer's registry (meaningful only when one exists).
pub open spec fn referrer_registry_for(s: Seq<ReferrerRegistry>, who: Seq<u8>) -> ReferrerRegistry {
    s[referrer_registry_index(s, who)]
}

/// Under uniqueness, the registry at any index is the one the lookup finds
/// for its referrer.
pub proof fn lemma_referrer_registry_at(s: Seq<ReferrerRegistry>, i: int)
    requires
        unique_referrers(s),
        0 <= i < s.len(),
    ensures
        has_referrer_registry(s, s[i].referrer@),
        referrer_registry_index(s, s[i].referrer@) == i,
        referrer_registry_for(s, s[i].referrer@) == s[i],
{
    assert(has_referrer_registry(s, s[i].referrer@));
    let j = referrer_registry_index(s, s[i].referrer@);
    assert(0 <= j < s.len() && s[j].referrer@ == s[i].referrer@);
    assert(j == i);
}

} // verus!
