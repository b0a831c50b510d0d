use dice::constants::ed25519_verifier_id;
use dice::fairness::{derive_roll, raw_payout};

#[test]
fn roll_determinism_counting_signature() {
    let sig: Vec<u8> = (0u8..64).collect();
    assert_eq!(derive_roll(&sig), 10);
    assert_eq!(derive_roll(&sig), 10);
}

#[test]
fn roll_determinism_zero_signature() {
    let sig = vec![0u8; 64];
    assert_eq!(derive_roll(&sig), 73);
    assert_eq!(derive_roll(&sig), 73);
}

#[test]
fn roll_determinism_patterned_signature() {
    let sig = vec![0xabu8; 64];
    assert_eq!(derive_roll(&sig), 9);
    assert_eq!(derive_roll(&sig), 9);
}

#[test]
fn roll_is_always_in_range() {
    for n in 0u8..32 {
        let sig = vec![n; 64];
        let r = derive_roll(&sig);
        assert!((1..=100).contains(&r));
    }
}

#[test]
fn payout_formula_exact_scenario() {
    // floor(floor(1_000_000 * 9850 / 49) / 100): truncation after each step.
    assert_eq!(raw_payout(1_000_000, 50), 2_010_204);
}

#[test]
fn payout_truncates_at_each_division() {
    // 1 * 9850 / 49 = 201 (truncated), then 201 / 100 = 2; a single
    // combined computation would give 2.01... and round differently only
    // with the wrong order.
    assert_eq!(raw_payout(1, 50), 2);
    // 999 * 9850 / 98 = 100_412, then / 100 = 1004.
    assert_eq!(raw_payout(999, 99), 1004);
}

#[test]
fn verifier_id_matches_ledger_constant() {
    let ours = ed25519_verifier_id();
    let theirs = anchor_lang::solana_program::ed25519_program::ID.to_bytes();
    assert_eq!(ours, theirs);
}
