use anchor_lang::solana_program::pubkey::Pubkey;
use dice::address::{derive_bet_address, derive_vault_address};

const PROGRAM_ID: [u8; 32] = [0x77u8; 32];
const HOUSE: [u8; 32] = [0x11u8; 32];

#[test]
fn vault_address_matches_sdk_derivation() {
    let (addr, bump) = derive_vault_address(&HOUSE, &PROGRAM_ID).unwrap();
    let (expected, expected_bump) = Pubkey::find_program_address(
        &[b"vault", HOUSE.as_ref()],
        &Pubkey::new_from_array(PROGRAM_ID),
    );
    assert_eq!(addr, expected.to_bytes());
    assert_eq!(bump, expected_bump);
}

#[test]
fn bet_address_matches_sdk_derivation() {
    let (vault, _) = derive_vault_address(&HOUSE, &PROGRAM_ID).unwrap();
    let seed: u128 = 0x0102030405060708090a0b0c0d0e0f10;
    let (addr, bump) = derive_bet_address(&vault, seed, &PROGRAM_ID).unwrap();
    let (expected, expected_bump) = Pubkey::find_program_address(
        &[b"bet", vault.as_ref(), seed.to_le_bytes().as_ref()],
        &Pubkey::new_from_array(PROGRAM_ID),
    );
    assert_eq!(addr, expected.to_bytes());
    assert_eq!(bump, expected_bump);
}

#[test]
fn bet_addresses_differ_per_seed() {
    let (vault, _) = derive_vault_address(&HOUSE, &PROGRAM_ID).unwrap();
    let (a, _) = derive_bet_address(&vault, 1, &PROGRAM_ID).unwrap();
    let (b, _) = derive_bet_address(&vault, 2, &PROGRAM_ID).unwrap();
    assert_ne!(a, b);
}
