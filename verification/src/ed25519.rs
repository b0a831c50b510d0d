use vstd::prelude::*;

verus! {

use crate::bet::Bet;
use crate::constants::spec_ed25519_verifier_id;
use crate::error::DiceError;

/// One signature entry reported by the ledger's ed25519 verification
/// facility, already unpacked into plain values.  An absent field means the
/// verification instruction did not carry that component.
pub struct SignatureRecord {
    /// Whether the entry's header marks it as strictly verifiable.
    pub is_verifiable: bool,
    /// The public key the signature was verified against.
    pub public_key: Option<[u8; 32]>,
    /// The raw signature bytes that were verified.
    pub signature: Option<Vec<u8>>,
    /// The exact message bytes the signature covers.
    pub message: Option<Vec<u8>>,
}

/// What the verification operation executed immediately before a resolution
/// reported: who ran it, how many accounts it carried, and the signatures it
/// verified.  Resolution interprets this record; it never verifies a
/// signature itself.
pub struct Ed25519Attestation {
    /// Identity of the facility that executed the verification.
    pub verifier_id: [u8; 32],
    /// Number of accounts the verification instruction carried.
    pub account_count: usize,
    /// The signature entries the facility verified.
    pub signatures: Vec<SignatureRecord>,
}

/// The fairness guard: the exact outcome of checking an attestation against
/// the house key, the submitted signature, and the bet's canonical encoding.
/// The checks run in a fixed order and the first failure decides the error.
pub open spec fn spec_verify(
    att: Ed25519Attestation,
    house: Seq<u8>,
    sig: Seq<u8>,
    bet: Bet,
) -> Result<(), DiceError> {
    if att.verifier_id@ != spec_ed25519_verifier_id() {
        Err(DiceError::InvalidEd25519ProgramID)
    } else if att.account_count != 0 {
        Err(DiceError::InvalidEd25519Accounts)
    } else if att.signatures@.len() != 1 {
        Err(DiceError::InvalidEd25519SignatureLen)
    } else if !att.signatures@[0].is_verifiable {
        Err(DiceError::InvalidEd25519Header)
    } else {
        match att.signatures@[0].public_key {
            None => Err(DiceError::InvalidEd25519Pubkey),
            Some(pk) => {
                if pk@ != house {
                    Err(DiceError::InvalidEd25519Pubkey)
                } else {
                    match att.signatures@[0].signature {
                        None => Err(DiceError::InvalidEd25519Signature),
                        Some(s) => {
                            if s@ != sig {
                                Err(DiceError::InvalidEd25519Signature)
                            } else {
                                match att.signatures@[0].message {
                                    None => Err(DiceError::InvalidEd25519Message),
                                    Some(m) => {
                                        if m@ != bet.spec_encoding() {
                                            Err(DiceError::InvalidEd25519Message)
                                        } else {
                                            Ok(())
                                        }
                                    },
                                }
                            }
                        },
                    }
                }
            },
        }
    }
}

/// Byte-for-byte equality of two byte strings.
pub fn bytes_equal(a: &[u8], b: &[u8]) -> (r: bool)
    ensures
        r == (a@ == b@),
{
    if a.len() != b.len() {
        proof {
            assert(a@ != b@) by {
                if a@ == b@ {
                    assert(a@.len() == b@.len());
                }
            }
        }
        return false;
    }
    let mut i: usize = 0;
    while i < a.len()
        invariant
            i <= a@.len(),
            a@.len() == b@.len(),
            forall|j: int| 0 <= j < i ==> a@[j] == b@[j],
        decreases a@.len() - i,
    {
        if *vstd::slice::slice_index_get(a, i) != *vstd::slice::slice_index_get(b, i) {
            return false;
        }
        i = i + 1;
    }
    proof {
        assert(a@ =~= b@);
    }
    true
}

/// Byte-for-byte equality of two public keys.
pub fn keys_equal(a: &[u8; 32], b: &[u8; 32]) -> (r: bool)
    ensures
        r == (a@ == b@),
{
    bytes_equal(a.as_slice(), b.as_slice())
}

/// Run the fairness guard: accept the attestation only if the verification
/// was run by the ed25519 facility, carried no accounts, verified exactly
/// one strict signature by the house key over the submitted signature bytes,
/// and signed a message byte-for-byte equal to the bet's canonical encoding.
pub fn verify_ed25519_signature(
    att: &Ed25519Attestation,
    house: &[u8; 32],
    sig: &[u8],
    bet: &Bet,
) -> (r: Result<(), DiceError>)
    ensures
        r == spec_verify(*att, house@, sig@, *bet),
{
    let expected = crate::constants::ed25519_verifier_id();
    if !keys_equal(&att.verifier_id, &expected) {
        return Err(DiceError::InvalidEd25519ProgramID);
    }
    if att.account_count != 0 {
        return Err(DiceError::InvalidEd25519Accounts);
    }
    if att.signatures.len() != 1 {
        return Err(DiceError::InvalidEd25519SignatureLen);
    }
    let record = &att.signatures[0];
    if !record.is_verifiable {
        return Err(DiceError::InvalidEd25519Header);
    }
    match &record.public_key {
        None => Err(DiceError::InvalidEd25519Pubkey),
        Some(pk) => {
            if !keys_equal(pk, house) {
                return Err(DiceError::InvalidEd25519Pubkey);
            }
            match &record.signature {
                None => Err(DiceError::InvalidEd25519Signature),
                Some(s) => {
                    if !bytes_equal(s.as_slice(), sig) {
                        return Err(DiceError::InvalidEd25519Signature);
                    }
                    match &record.message {
                        None => Err(DiceError::InvalidEd25519Message),
                        Some(m) => {
                            let encoding = bet.to_slice();
                            if !bytes_equal(m.as_slice(), encoding.as_slice()) {
                                return Err(DiceError::InvalidEd25519Message);
                            }
                            Ok(())
                        },
                    }
                },
            }
        },
    }
}

} // verus!
