use vstd::prelude::*;

verus! {

use crate::bet::Bet;
use crate::constants::REFUND_COOLDOWN_SLOTS;
use crate::ed25519::{spec_verify, verify_ed25519_signature, keys_equal, Ed25519Attestation};
use crate::error::DiceError;
use crate::fairness::{derive_roll, raw_payout, spec_raw_payout, spec_signature_roll};

/// The pool of house funds together with every open bet record held against
/// it.  This is the whole persistent state the settlement core owns: the
/// vault balance, the house identity the vault is derived from, and the open
/// records keyed by their player-chosen seeds.
pub struct Pool {
    /// The house's public key: funder of the vault and signer of outcomes.
    pub house: [u8; 32],
    /// Undisbursed stakes plus house bankroll, in the smallest unit.
    pub balance: u64,
    /// The open bet records; seeds are unique per pool.
    pub bets: Vec<Bet>,
}

/// The mathematical state of a pool.
#[verifier::ext_equal]
pub struct PoolView {
    pub house: Seq<u8>,
    pub balance: u64,
    pub bets: Seq<Bet>,
}

impl View for Pool {
    type V = PoolView;

    open spec fn view(&self) -> PoolView {
        PoolView { house: self.house@, balance: self.balance, bets: self.bets@ }
    }
}

impl PoolView {
    /// Well-formedness: every open record has a distinct seed and a target
    /// inside the playable range [2, 99].
    pub open spec fn wf(self) -> bool {
        &&& forall|i: int, j: int|
            0 <= i < j < self.bets.len() ==> self.bets[i].seed != self.bets[j].seed
        &&& forall|i: int| 0 <= i < self.bets.len() ==> 2 <= #[trigger] self.bets[i].roll <= 99
    }

    /// Whether some open record carries this seed.
    pub open spec fn has_seed(self, seed: u128) -> bool {
        exists|i: int| 0 <= i < self.bets.len() && (#[trigger] self.bets[i]).seed == seed
    }
}

/// The index of the first open record with this seed, if any.
pub open spec fn spec_find_bet(bets: Seq<Bet>, seed: u128) -> Option<int>
    decreases bets.len(),
{
    if bets.len() == 0 {
        None
    } else if bets[0].seed == seed {
        Some(0)
    } else {
        match spec_find_bet(bets.drop_first(), seed) {
            None => None,
            Some(i) => Some(i + 1),
        }
    }
}

/// What `spec_find_bet` finds: a valid index of the first record with the
/// seed, or a guarantee that no record carries it.
pub proof fn lemma_find_bet(bets: Seq<Bet>, seed: u128)
    ensures
        match spec_find_bet(bets, seed) {
            Some(i) => 0 <= i < bets.len() && bets[i].seed == seed && forall|j: int|
                0 <= j < i ==> bets[j].seed != seed,
            None => forall|j: int| 0 <= j < bets.len() ==> bets[j].seed != seed,
        },
    decreases bets.len(),
{
    if bets.len() > 0 && bets[0].seed != seed {
        lemma_find_bet(bets.drop_first(), seed);
        assert forall|j: int| 0 <= j < bets.len() && j >= 1 implies bets[j] == bets.drop_first()[j
            - 1] by {}
    }
}

/// Elapsed logical-clock distance since a placement reading; zero when the
/// clock reads earlier than the placement.
pub open spec fn spec_elapsed(now: u64, slot: u64) -> u64 {
    if now >= slot {
        (now - slot) as u64
    } else {
        0
    }
}

/// Vault funding: the house moves `amount` into the pool.
pub open spec fn spec_fund(p: PoolView, amount: u64) -> (PoolView, Result<(), DiceError>) {
    if p.balance + amount > u64::MAX {
        (p, Err(DiceError::BalanceOverflow))
    } else {
        (
            PoolView { house: p.house, balance: (p.balance + amount) as u64, bets: p.bets },
            Ok(()),
        )
    }
}

/// Bet placement: escrow the stake and create the record, provided the
/// target is playable, the seed is fresh, and the balance fits.
pub open spec fn spec_place(
    p: PoolView,
    bump: u8,
    roll: u8,
    slot: u64,
    amount: u64,
    seed: u128,
    player: [u8; 32],
) -> (PoolView, Result<(), DiceError>) {
    if !(2 <= roll && roll <= 99) {
        (p, Err(DiceError::TargetOutOfRange))
    } else if p.has_seed(seed) {
        (p, Err(DiceError::BetAlreadyExists))
    } else if p.balance + amount > u64::MAX {
        (p, Err(DiceError::BalanceOverflow))
    } else {
        (
            PoolView {
                house: p.house,
                balance: (p.balance + amount) as u64,
                bets: p.bets.push(Bet { bump, roll, slot, amount, seed, player }),
            },
            Ok(()),
        )
    }
}

/// The amount actually transferred on a win: the computed payout, capped at
/// the pool's balance so a single payout can never exceed what it holds.
pub open spec fn spec_capped_payout(p: PoolView, bet: Bet) -> u64 {
    if spec_raw_payout(bet.amount, bet.roll) < p.balance as int {
        spec_raw_payout(bet.amount, bet.roll) as u64
    } else {
        p.balance
    }
}

/// Bet resolution: run the fairness guard, derive the roll from the
/// signature's digest, pay a capped payout on a win, and destroy the record.
pub open spec fn spec_resolve(p: PoolView, seed: u128, att: Ed25519Attestation, sig: Seq<u8>) -> (
    PoolView,
    Result<u64, DiceError>,
) {
    match spec_find_bet(p.bets, seed) {
        None => (p, Err(DiceError::BetNotFound)),
        Some(i) => {
            let bet = p.bets[i];
            match spec_verify(att, p.house, sig, bet) {
                Err(e) => (p, Err(e)),
                Ok(_) => {
                    if bet.roll > spec_signature_roll(sig) {
                        let pay = spec_capped_payout(p, bet);
                        (
                            PoolView {
                                house: p.house,
                                balance: (p.balance - pay) as u64,
                                bets: p.bets.remove(i),
                            },
                            Ok(pay),
                        )
                    } else {
                        (
                            PoolView { house: p.house, balance: p.balance, bets: p.bets.remove(i) },
                            Ok(0),
                        )
                    }
                },
            }
        },
    }
}

/// Bet refund: after the cooldown strictly elapses, return the stake to the
/// record's player and destroy the record.
pub open spec fn spec_refund(p: PoolView, seed: u128, claimant: [u8; 32], now: u64) -> (
    PoolView,
    Result<u64, DiceError>,
) {
    match spec_find_bet(p.bets, seed) {
        None => (p, Err(DiceError::BetNotFound)),
        Some(i) => {
            let bet = p.bets[i];
            if bet.player@ != claimant@ {
                (p, Err(DiceError::PlayerMismatch))
            } else if spec_elapsed(now, bet.slot) <= REFUND_COOLDOWN_SLOTS {
                (p, Err(DiceError::RefundCooldownNotElapsed))
            } else if p.balance < bet.amount {
                (p, Err(DiceError::InsufficientPoolFunds))
            } else {
                (
                    PoolView {
                        house: p.house,
                        balance: (p.balance - bet.amount) as u64,
                        bets: p.bets.remove(i),
                    },
                    Ok(bet.amount),
                )
            }
        },
    }
}

impl Pool {
    /// A fresh, empty, unfunded pool for a house identity.
    pub fn new(house: [u8; 32]) -> (r: Pool)
        ensures
            r@ == (PoolView { house: house@, balance: 0u64, bets: Seq::<Bet>::empty() }),
            r@.wf(),
    {
        let p = Pool { house, balance: 0, bets: Vec::new() };
        proof {
            assert(p@ =~= PoolView { house: house@, balance: 0u64, bets: Seq::<Bet>::empty() });
        }
        p
    }

    /// Find the index of the open record with this seed.
    fn find_bet_index(&self, seed: u128) -> (r: Option<usize>)
        ensures
            match r {
                Some(i) => spec_find_bet(self.bets@, seed) == Some(i as int),
                None => spec_find_bet(self.bets@, seed) is None,
            },
    {
        let mut i: usize = 0;
        while i < self.bets.len()
            invariant
                i <= self.bets@.len(),
                forall|j: int| 0 <= j < i ==> self.bets@[j].seed != seed,
            decreases self.bets@.len() - i,
        {
            if self.bets[i].seed == seed {
                proof {
                    lemma_find_first(self.bets@, seed, i as int);
                }
                return Some(i);
            }
            i = i + 1;
        }
        proof {
            lemma_find_first(self.bets@, seed, self.bets@.len() as int);
        }
        None
    }

    /// Vault funding: move `amount` of house value into the pool.
    pub fn initialize(&mut self, amount: u64) -> (r: Result<(), DiceError>)
        ensures
            final(self)@ == spec_fund(old(self)@, amount).0,
            r == spec_fund(old(self)@, amount).1,
            old(self)@.wf() ==> final(self)@.wf(),
    {
        if amount > u64::MAX - self.balance {
            return Err(DiceError::BalanceOverflow);
        }
        self.balance = self.balance + amount;
        proof {
            assert(self@ =~= spec_fund(old(self)@, amount).0);
        }
        Ok(())
    }

    /// Bet placement: record the terms and escrow the stake.
    pub fn place_bet(
        &mut self,
        bump: u8,
        roll: u8,
        slot: u64,
        amount: u64,
        seed: u128,
        player: [u8; 32],
    ) -> (r: Result<(), DiceError>)
        ensures
            final(self)@ == spec_place(old(self)@, bump, roll, slot, amount, seed, player).0,
            r == spec_place(old(self)@, bump, roll, slot, amount, seed, player).1,
            old(self)@.wf() ==> final(self)@.wf(),
    {
        if roll < 2 || roll > 99 {
            return Err(DiceError::TargetOutOfRange);
        }
        proof {
            lemma_find_bet(self.bets@, seed);
        }
        match self.find_bet_index(seed) {
            Some(i) => {
                proof {
                    let pv = self@;
                    let wi = spec_find_bet(self.bets@, seed)->Some_0;
                    assert(pv.bets[wi].seed == seed);
                    assert(pv.has_seed(seed));
                }
                Err(DiceError::BetAlreadyExists)
            },
            None => {
                if amount > u64::MAX - self.balance {
                    return Err(DiceError::BalanceOverflow);
                }
                self.balance = self.balance + amount;
                self.bets.push(Bet { bump, roll, slot, amount, seed, player });
                proof {
                    assert(self@ =~= spec_place(
                        old(self)@,
                        bump,
                        roll,
                        slot,
                        amount,
                        seed,
                        player,
                    ).0);
                }
                Ok(())
            },
        }
    }

    /// Bet resolution: given the attestation of the verification operation
    /// executed immediately before, and the raw signature bytes, destroy the
    /// record and pay out on a win.  Returns the amount paid to the player.
    pub fn resolve_bet(&mut self, seed: u128, att: &Ed25519Attestation, sig: &[u8]) -> (r: Result<
        u64,
        DiceError,
    >)
        requires
            old(self)@.wf(),
        ensures
            final(self)@ == spec_resolve(old(self)@, seed, *att, sig@).0,
            r == spec_resolve(old(self)@, seed, *att, sig@).1,
            final(self)@.wf(),
            r matches Ok(pay) ==> pay <= old(self)@.balance,
    {
        proof {
            lemma_find_bet(self.bets@, seed);
        }
        let idx = match self.find_bet_index(seed) {
            None => {
                return Err(DiceError::BetNotFound);
            },
            Some(i) => i,
        };
        let bet = self.bets[idx];
        match verify_ed25519_signature(att, &self.house, sig, &bet) {
            Err(e) => Err(e),
            Ok(_) => {
                let ghost pre = self@;
                let roll = derive_roll(sig);
                let mut pay: u64 = 0;
                if bet.roll > roll {
                    let raw = raw_payout(bet.amount, bet.roll);
                    pay = if raw < self.balance as u128 {
                        raw as u64
                    } else {
                        self.balance
                    };
                    self.balance = self.balance - pay;
                }
                self.bets.remove(idx);
                proof {
                    assert(self@ =~= spec_resolve(pre, seed, *att, sig@).0);
                    lemma_remove_preserves_wf(pre, idx as int);
                }
                Ok(pay)
            },
        }
    }

    /// Bet refund: after the cooldown strictly elapses, return the stake to
    /// the claimant, who must be the record's player.  Returns the refunded
    /// stake.
    pub fn refund_bet(&mut self, seed: u128, claimant: &[u8; 32], now: u64) -> (r: Result<
        u64,
        DiceError,
    >)
        requires
            old(self)@.wf(),
        ensures
            final(self)@ == spec_refund(old(self)@, seed, *claimant, now).0,
            r == spec_refund(old(self)@, seed, *claimant, now).1,
            final(self)@.wf(),
            r matches Ok(pay) ==> pay <= old(self)@.balance,
    {
        proof {
            lemma_find_bet(self.bets@, seed);
        }
        let idx = match self.find_bet_index(seed) {
            None => {
                return Err(DiceError::BetNotFound);
            },
            Some(i) => i,
        };
        let bet = self.bets[idx];
        if !keys_equal(&bet.player, claimant) {
            return Err(DiceError::PlayerMismatch);
        }
        let elapsed = if now >= bet.slot {
            now - bet.slot
        } else {
            0
        };
        if elapsed <= REFUND_COOLDOWN_SLOTS {
            return Err(DiceError::RefundCooldownNotElapsed);
        }
        if self.balance < bet.amount {
            return Err(DiceError::InsufficientPoolFunds);
        }
        let ghost pre = self@;
        self.balance = self.balance - bet.amount;
        self.bets.remove(idx);
        proof {
            assert(self@ =~= spec_refund(pre, seed, *claimant, now).0);
            lemma_remove_preserves_wf(pre, idx as int);
        }
        Ok(bet.amount)
    }
}

/// Removing one record keeps the remaining seeds distinct and the remaining
/// targets playable.
pub proof fn lemma_remove_preserves_wf(p: PoolView, i: int)
    requires
        p.wf(),
        0 <= i < p.bets.len(),
    ensures
        (PoolView { house: p.house, balance: p.balance, bets: p.bets.remove(i) }).wf(),
        forall|b: u64| (PoolView { house: p.house, balance: b, bets: p.bets.remove(i) }).wf(),
{
    let q = p.bets.remove(i);
    assert forall|a: int, b: int| 0 <= a < b < q.len() implies q[a].seed != q[b].seed by {
        let a0 = if a < i {
            a
        } else {
            a + 1
        };
        let b0 = if b < i {
            b
        } else {
            b + 1
        };
        assert(q[a] == p.bets[a0]);
        assert(q[b] == p.bets[b0]);
    }
    assert forall|a: int| 0 <= a < q.len() implies 2 <= #[trigger] q[a].roll <= 99 by {
        let a0 = if a < i {
            a
        } else {
            a + 1
        };
        assert(q[a] == p.bets[a0]);
    }
}

/// A loop that has ruled the seed out of every earlier index pins down what
/// `spec_find_bet` returns.
pub proof fn lemma_find_first(bets: Seq<Bet>, seed: u128, i: int)
    requires
        0 <= i <= bets.len(),
        forall|j: int| 0 <= j < i ==> bets[j].seed != seed,
        i < bets.len() ==> bets[i].seed == seed,
    ensures
        i < bets.len() ==> spec_find_bet(bets, seed) == Some(i),
        i == bets.len() ==> spec_find_bet(bets, seed) is None,
    decreases bets.len(),
{
    if bets.len() > 0 {
        if i == 0 {
        } else {
            lemma_find_first(bets.drop_first(), seed, i - 1);
            assert forall|j: int| 0 <= j < i - 1 implies bets.drop_first()[j].seed != seed by {
                assert(bets.drop_first()[j] == bets[j + 1]);
            }
            assert(i - 1 < bets.drop_first().len() ==> bets.drop_first()[i - 1].seed == seed);
        }
    }
}

} // verus!
