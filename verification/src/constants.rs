use vstd::prelude::*;

verus! {

/// House edge in basis points (1.5%), deducted from fair odds on a win.
pub const HOUSE_EDGE: u16 = 150;

/// Minimum elapsed logical-clock distance before an unresolved bet becomes
/// refundable; a refund strictly before or at this distance fails.
pub const REFUND_COOLDOWN_SLOTS: u64 = 9000;

/// Domain tag for the pool (vault) address derivation: the bytes of "vault".
pub open spec fn spec_vault_tag() -> Seq<u8> {
    seq![118u8, 97u8, 117u8, 108u8, 116u8]
}

/// Domain tag for the bet record address derivation: the bytes of "bet".
pub open spec fn spec_bet_tag() -> Seq<u8> {
    seq![98u8, 101u8, 116u8]
}

/// The identity of the ledger's ed25519 signature-verification facility; a
/// resolution only trusts a verification performed by this exact authority.
pub open spec fn spec_ed25519_verifier_id() -> Seq<u8> {
    seq![
        3u8, 125u8, 70u8, 214u8, 124u8, 147u8, 251u8, 190u8, 18u8, 249u8, 66u8, 143u8, 131u8,
        141u8, 64u8, 255u8, 5u8, 112u8, 116u8, 73u8, 39u8, 244u8, 138u8, 100u8, 252u8, 202u8,
        112u8, 68u8, 128u8, 0u8, 0u8, 0u8,
    ]
}

pub fn vault_tag() -> (r: Vec<u8>)
    ensures
        r@ == spec_vault_tag(),
{
    let mut v: Vec<u8> = Vec::new();
    v.push(118);
    v.push(97);
    v.push(117);
    v.push(108);
    v.push(116);
    proof {
        assert(v@ =~= spec_vault_tag());
    }
    v
}

pub fn bet_tag() -> (r: Vec<u8>)
    ensures
        r@ == spec_bet_tag(),
{
    let mut v: Vec<u8> = Vec::new();
    v.push(98);
    v.push(101);
    v.push(116);
    proof {
        assert(v@ =~= spec_bet_tag());
    }
    v
}

pub fn ed25519_verifier_id() -> (r: [u8; 32])
    ensures
        r@ == spec_ed25519_verifier_id(),
{
    let a: [u8; 32] = [
        3, 125, 70, 214, 124, 147, 251, 190, 18, 249, 66, 143, 131, 141, 64, 255, 5, 112, 116, 73,
        39, 244, 138, 100, 252, 202, 112, 68, 128, 0, 0, 0,
    ];
    proof {
        assert(a@ =~= spec_ed25519_verifier_id());
    }
    a
}

} // verus!
