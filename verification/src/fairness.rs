use vstd::prelude::*;

verus! {

use crate::constants::HOUSE_EDGE;

/// The SHA-256 digest of a byte string: a pure function of the bytes alone,
/// 32 bytes long.  The digest of the house's raw signature is the sole
/// entropy source of a resolution.
pub uninterp spec fn sha256_of(data: Seq<u8>) -> Seq<u8>;

/// Relies on the ledger SDK's `hash::hash`, which computes the SHA-256
/// digest of its input; the digest depends on the input bytes alone.
#[verifier::external_body]
fn sha256_digest(data: &[u8]) -> (r: [u8; 32])
    ensures
        r@ == sha256_of(data@),
{
    anchor_lang::solana_program::hash::hash(data).to_bytes()
}

/// The roll encoded by a 32-byte digest: the two 128-bit little-endian
/// halves are summed with wraparound and reduced into [1, 100].
pub open spec fn spec_roll_of_digest(digest: Seq<u8>) -> u8
    recommends
        digest.len() == 32,
{
    (vstd::wrapping::u128_specs::wrapping_add(
        vstd::bytes::spec_u128_from_le_bytes(digest.subrange(0, 16)),
        vstd::bytes::spec_u128_from_le_bytes(digest.subrange(16, 32)),
    ) % 100 + 1) as u8
}

/// The roll a raw signature resolves to: a pure function of the signature's
/// SHA-256 digest, so any observer can recompute it.
pub open spec fn spec_signature_roll(sig: Seq<u8>) -> u8 {
    spec_roll_of_digest(sha256_of(sig))
}

/// Reduce a 32-byte digest to a roll in [1, 100].
pub fn roll_from_digest(digest: &[u8; 32]) -> (r: u8)
    ensures
        r == spec_roll_of_digest(digest@),
        1 <= r <= 100,
{
    let s = digest.as_slice();
    let lo = vstd::bytes::u128_from_le_bytes(vstd::slice::slice_subrange(s, 0, 16));
    let hi = vstd::bytes::u128_from_le_bytes(vstd::slice::slice_subrange(s, 16, 32));
    let sum = lo.wrapping_add(hi);
    (sum % 100) as u8 + 1
}

/// Derive the roll for a raw signature: hash it, then reduce the digest.
pub fn derive_roll(sig: &[u8]) -> (r: u8)
    ensures
        r == spec_signature_roll(sig@),
        1 <= r <= 100,
{
    let digest = sha256_digest(sig);
    roll_from_digest(&digest)
}

/// The uncapped payout owed on a win: the stake times the fair odds
/// multiplier 1/(target-1), scaled by the fixed house edge, with integer
/// truncation after each of the two divisions, in this exact order.
pub open spec fn spec_raw_payout(amount: u64, target: u8) -> int
    recommends
        2 <= target,
{
    amount * ((10000 - HOUSE_EDGE) as int) / ((target - 1) as int) / 100
}

/// Compute the uncapped win payout for a stake and a target.
pub fn raw_payout(amount: u64, target: u8) -> (r: u128)
    requires
        2 <= target,
    ensures
        r == spec_raw_payout(amount, target),
{
    proof {
        assert((amount as int) * ((10000 - HOUSE_EDGE) as int) <= u64::MAX * 10000int) by (nonlinear_arith)
            requires
                amount <= u64::MAX,
                0 < (10000 - HOUSE_EDGE) as int <= 10000,
        ;
    }
    let edge_scaled: u128 = (amount as u128) * ((10000 - HOUSE_EDGE) as u128);
    let fair: u128 = edge_scaled / ((target as u128) - 1);
    fair / 100
}

} // verus!
