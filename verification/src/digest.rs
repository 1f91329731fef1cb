//! The race id digest. The digest itself is computed by an outside
//! SHA-256 implementation; the ledger only checks a caller-supplied digest
//! against the digest of the race id, so all it needs is that the digest is
//! a function of the input bytes alone.

use vstd::prelude::*;

verus! {

/// The SHA-256 digest of a byte string, as a 32-byte sequence. The digest
/// depends on the input bytes alone; nothing further is assumed of it.
pub uninterp spec fn digest_of(input: Seq<u8>) -> Seq<u8>;

/// Relies on `anchor_lang::solana_program::hash::hash` (SHA-256): the
/// 32-byte digest depends on the input bytes alone.
#[verifier::external_body]
pub(crate) fn compute_digest(input: &[u8]) -> (r: [u8; 32])
    ensures
        r@ == digest_of(input@),
{
    anchor_lang::solana_program::hash::hash(input).to_bytes()
}

} // verus!
