use vstd::prelude::*;

verus! {

/// A bet record: the per-wager persistent entity.  All fields are fixed at
/// placement and never change until the record is destroyed by resolution
/// or refund.
#[derive(Clone, Copy, Debug, PartialEq, Eq)]
pub struct Bet {
    /// Address-derivation nonce that disambiguates the record's storage
    /// address from other derived addresses at the same logical path.
    pub bump: u8,
    /// The target: the player wins when the derived roll is strictly below
    /// this value.  Domain [2, 99], enforced at placement.
    pub roll: u8,
    /// Logical-clock reading at placement; basis for the refund cooldown.
    pub slot: u64,
    /// The stake escrowed into the pool, in the ledger's smallest unit.
    pub amount: u64,
    /// Player-chosen uniqueness value for address derivation.
    pub seed: u128,
    /// The player's public key: owner and refund/payout recipient.
    pub player: [u8; 32],
}

impl Bet {
    /// The canonical byte encoding: nonce, target, placement time (LE),
    /// stake (LE), seed (LE), player key, in that fixed order.  This is
    /// exactly the message the house must have signed for a resolution.
    pub open spec fn spec_encoding(self) -> Seq<u8> {
        seq![self.bump, self.roll] + vstd::bytes::spec_u64_to_le_bytes(self.slot)
            + vstd::bytes::spec_u64_to_le_bytes(self.amount) + vstd::bytes::spec_u128_to_le_bytes(
            self.seed,
        ) + self.player@
    }

    /// The canonical encoding is always 66 bytes long.
    pub proof fn lemma_encoding_len(self)
        ensures
            self.spec_encoding().len() == 66,
    {
        vstd::bytes::lemma_auto_spec_u64_to_from_le_bytes();
        vstd::bytes::lemma_auto_spec_u128_to_from_le_bytes();
    }

    /// Serialize this record into its canonical encoding.
    pub fn to_slice(&self) -> (r: Vec<u8>)
        ensures
            r@ == self.spec_encoding(),
    {
        let mut s: Vec<u8> = Vec::new();
        s.push(self.bump);
        s.push(self.roll);
        let mut slot_bytes = vstd::bytes::u64_to_le_bytes(self.slot);
        s.append(&mut slot_bytes);
        let mut amount_bytes = vstd::bytes::u64_to_le_bytes(self.amount);
        s.append(&mut amount_bytes);
        let mut seed_bytes = vstd::bytes::u128_to_le_bytes(self.seed);
        s.append(&mut seed_bytes);
        let mut player_bytes = self.player_to_vec();
        s.append(&mut player_bytes);
        proof {
            assert(s@ =~= self.spec_encoding());
        }
        s
    }

    /// The player key as an owned byte vector.
    pub fn player_to_vec(&self) -> (r: Vec<u8>)
        ensures
            r@ == self.player@,
    {
        vstd::slice::slice_to_vec(self.player.as_slice())
    }
}

} // verus!
