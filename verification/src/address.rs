use anchor_lang::solana_program::pubkey::Pubkey;
use vstd::prelude::*;

verus! {

use crate::constants::{bet_tag, spec_bet_tag, spec_vault_tag, vault_tag};

/// The program-derived address for a seed list under a deriving program:
/// `Some((address, bump))` when a bump seed exists, `None` in the
/// statistically improbable event that none does.  A pure function of the
/// seed list and the program identity, so callers can compute addresses
/// off-process and the core never looks one up by search.
pub uninterp spec fn pda_of(seeds: Seq<Seq<u8>>, program_id: Seq<u8>) -> Option<(Seq<u8>, u8)>;

/// A concrete derivation result as the mathematical value `pda_of` yields.
pub open spec fn spec_derivation_view(r: Option<([u8; 32], u8)>) -> Option<(Seq<u8>, u8)> {
    match r {
        None => None,
        Some(p) => Some((p.0@, p.1)),
    }
}

/// Relies on `Pubkey::try_find_program_address`: the derived address and
/// bump seed depend on the seed list and the program identity alone, and
/// `None` comes back only when no bump seed yields a valid address.
#[verifier::external_body]
fn find_program_address(seeds: &Vec<Vec<u8>>, program_id: &[u8; 32]) -> (r: Option<([u8; 32], u8)>)
    ensures
        spec_derivation_view(r) == pda_of(seeds@.map_values(|s: Vec<u8>| s@), program_id@),
{
    let refs: Vec<&[u8]> = seeds.iter().map(|s| s.as_slice()).collect();
    Pubkey::try_find_program_address(&refs, &Pubkey::new_from_array(*program_id)).map(
        |p: (Pubkey, u8)| (p.0.to_bytes(), p.1),
    )
}

/// The seed list a pool (vault) address is derived from: the vault domain
/// tag, then the house identity.
pub open spec fn spec_vault_seeds(house: Seq<u8>) -> Seq<Seq<u8>> {
    seq![spec_vault_tag(), house]
}

/// The seed list a bet record address is derived from: the bet domain tag,
/// the pool address, then the bet's seed in little-endian encoding.
pub open spec fn spec_bet_seeds(vault: Seq<u8>, seed: u128) -> Seq<Seq<u8>> {
    seq![spec_bet_tag(), vault, vstd::bytes::spec_u128_to_le_bytes(seed)]
}

/// Derive the pool (vault) address for a house identity.
pub fn derive_vault_address(house: &[u8; 32], program_id: &[u8; 32]) -> (r: Option<([u8; 32], u8)>)
    ensures
        spec_derivation_view(r) == pda_of(spec_vault_seeds(house@), program_id@),
{
    let mut seeds: Vec<Vec<u8>> = Vec::new();
    seeds.push(vault_tag());
    seeds.push(vstd::slice::slice_to_vec(house.as_slice()));
    proof {
        assert(seeds@.map_values(|s: Vec<u8>| s@) =~~= spec_vault_seeds(house@));
    }
    find_program_address(&seeds, program_id)
}

/// Derive a bet record address for a pool address and a player-chosen seed.
pub fn derive_bet_address(vault: &[u8; 32], seed: u128, program_id: &[u8; 32]) -> (r: Option<
    ([u8; 32], u8),
>)
    ensures
        spec_derivation_view(r) == pda_of(spec_bet_seeds(vault@, seed), program_id@),
{
    let mut seeds: Vec<Vec<u8>> = Vec::new();
    seeds.push(bet_tag());
    seeds.push(vstd::slice::slice_to_vec(vault.as_slice()));
    seeds.push(vstd::bytes::u128_to_le_bytes(seed));
    proof {
        assert(seeds@.map_values(|s: Vec<u8>| s@) =~~= spec_bet_seeds(vault@, seed));
    }
    find_program_address(&seeds, program_id)
}

} // verus!
