use dice::bet::Bet;
use dice::constants::ed25519_verifier_id;
use dice::ed25519::{verify_ed25519_signature, Ed25519Attestation, SignatureRecord};
use dice::error::DiceError;

fn house_key() -> [u8; 32] {
    [0x11u8; 32]
}

fn sample_bet() -> Bet {
    Bet { bump: 3, roll: 50, slot: 1000, amount: 500_000, seed: 42, player: [0x22u8; 32] }
}

fn good_attestation(sig: &[u8]) -> Ed25519Attestation {
    Ed25519Attestation {
        verifier_id: ed25519_verifier_id(),
        account_count: 0,
        signatures: vec![SignatureRecord {
            is_verifiable: true,
            public_key: Some(house_key()),
            signature: Some(sig.to_vec()),
            message: Some(sample_bet().to_slice()),
        }],
    }
}

fn sig64() -> Vec<u8> {
    vec![0x5au8; 64]
}

#[test]
fn guard_accepts_correct_attestation() {
    let sig = sig64();
    let att = good_attestation(&sig);
    assert_eq!(verify_ed25519_signature(&att, &house_key(), &sig, &sample_bet()), Ok(()));
}

#[test]
fn guard_rejects_wrong_verifier() {
    let sig = sig64();
    let mut att = good_attestation(&sig);
    att.verifier_id = [9u8; 32];
    assert_eq!(
        verify_ed25519_signature(&att, &house_key(), &sig, &sample_bet()),
        Err(DiceError::InvalidEd25519ProgramID)
    );
}

#[test]
fn guard_rejects_accounts_present() {
    let sig = sig64();
    let mut att = good_attestation(&sig);
    att.account_count = 1;
    assert_eq!(
        verify_ed25519_signature(&att, &house_key(), &sig, &sample_bet()),
        Err(DiceError::InvalidEd25519Accounts)
    );
}

#[test]
fn guard_rejects_multiple_signatures() {
    let sig = sig64();
    let mut att = good_attestation(&sig);
    let extra = SignatureRecord {
        is_verifiable: true,
        public_key: Some(house_key()),
        signature: Some(sig.clone()),
        message: Some(sample_bet().to_slice()),
    };
    att.signatures.push(extra);
    assert_eq!(
        verify_ed25519_signature(&att, &house_key(), &sig, &sample_bet()),
        Err(DiceError::InvalidEd25519SignatureLen)
    );
}

#[test]
fn guard_rejects_zero_signatures() {
    let sig = sig64();
    let mut att = good_attestation(&sig);
    att.signatures.clear();
    assert_eq!(
        verify_ed25519_signature(&att, &house_key(), &sig, &sample_bet()),
        Err(DiceError::InvalidEd25519SignatureLen)
    );
}

#[test]
fn guard_rejects_unverifiable_header() {
    let sig = sig64();
    let mut att = good_attestation(&sig);
    att.signatures[0].is_verifiable = false;
    assert_eq!(
        verify_ed25519_signature(&att, &house_key(), &sig, &sample_bet()),
        Err(DiceError::InvalidEd25519Header)
    );
}

#[test]
fn guard_rejects_missing_pubkey() {
    let sig = sig64();
    let mut att = good_attestation(&sig);
    att.signatures[0].public_key = None;
    assert_eq!(
        verify_ed25519_signature(&att, &house_key(), &sig, &sample_bet()),
        Err(DiceError::InvalidEd25519Pubkey)
    );
}

#[test]
fn guard_rejects_foreign_pubkey() {
    let sig = sig64();
    let mut att = good_attestation(&sig);
    att.signatures[0].public_key = Some([0x33u8; 32]);
    assert_eq!(
        verify_ed25519_signature(&att, &house_key(), &sig, &sample_bet()),
        Err(DiceError::InvalidEd25519Pubkey)
    );
}

#[test]
fn guard_rejects_missing_signature() {
    let sig = sig64();
    let mut att = good_attestation(&sig);
    att.signatures[0].signature = None;
    assert_eq!(
        verify_ed25519_signature(&att, &house_key(), &sig, &sample_bet()),
        Err(DiceError::InvalidEd25519Signature)
    );
}

#[test]
fn guard_rejects_different_signature() {
    let sig = sig64();
    let mut att = good_attestation(&sig);
    let mut other = sig.clone();
    other[0] ^= 1;
    att.signatures[0].signature = Some(other);
    assert_eq!(
        verify_ed25519_signature(&att, &house_key(), &sig, &sample_bet()),
        Err(DiceError::InvalidEd25519Signature)
    );
}

#[test]
fn guard_rejects_missing_message() {
    let sig = sig64();
    let mut att = good_attestation(&sig);
    att.signatures[0].message = None;
    assert_eq!(
        verify_ed25519_signature(&att, &house_key(), &sig, &sample_bet()),
        Err(DiceError::InvalidEd25519Message)
    );
}

#[test]
fn guard_binds_signature_to_every_message_byte() {
    let sig = sig64();
    let encoding = sample_bet().to_slice();
    for k in 0..encoding.len() {
        let mut att = good_attestation(&sig);
        let mut tampered = encoding.clone();
        tampered[k] ^= 0x01;
        att.signatures[0].message = Some(tampered);
        assert_eq!(
            verify_ed25519_signature(&att, &house_key(), &sig, &sample_bet()),
            Err(DiceError::InvalidEd25519Message)
        );
    }
}
