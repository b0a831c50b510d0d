use vstd::prelude::*;

verus! {

use crate::bet::Bet;
use crate::constants::{spec_ed25519_verifier_id, REFUND_COOLDOWN_SLOTS};
use crate::ed25519::{spec_verify, Ed25519Attestation};
use crate::error::DiceError;
use crate::fairness::spec_raw_payout;
use crate::pool::{
    lemma_find_bet, spec_find_bet, spec_fund, spec_place, spec_refund, spec_resolve, PoolView,
};

/// One operation of the lifecycle, with every input the substrate would
/// hand it.
pub enum Op {
    Fund { amount: u64 },
    Place { bump: u8, roll: u8, slot: u64, amount: u64, seed: u128, player: [u8; 32] },
    Resolve { seed: u128, att: Ed25519Attestation, sig: Seq<u8> },
    Refund { seed: u128, claimant: [u8; 32], now: u64 },
}

/// The value an operation's outcome pays out of the pool.
pub open spec fn spec_paid(r: Result<u64, DiceError>) -> u64 {
    match r {
        Ok(v) => v,
        Err(_) => 0,
    }
}

/// The pool state after one operation.
pub open spec fn spec_step(p: PoolView, op: Op) -> PoolView {
    match op {
        Op::Fund { amount } => spec_fund(p, amount).0,
        Op::Place { bump, roll, slot, amount, seed, player } => spec_place(
            p,
            bump,
            roll,
            slot,
            amount,
            seed,
            player,
        ).0,
        Op::Resolve { seed, att, sig } => spec_resolve(p, seed, att, sig).0,
        Op::Refund { seed, claimant, now } => spec_refund(p, seed, claimant, now).0,
    }
}

/// The value one operation pays out of the pool.
pub open spec fn spec_step_paid(p: PoolView, op: Op) -> u64 {
    match op {
        Op::Fund { amount } => 0,
        Op::Place { bump, roll, slot, amount, seed, player } => 0,
        Op::Resolve { seed, att, sig } => spec_paid(spec_resolve(p, seed, att, sig).1),
        Op::Refund { seed, claimant, now } => spec_paid(spec_refund(p, seed, claimant, now).1),
    }
}

/// The pool state after a sequence of operations.
pub open spec fn spec_run(p: PoolView, ops: Seq<Op>) -> PoolView
    decreases ops.len(),
{
    if ops.len() == 0 {
        p
    } else {
        spec_run(spec_step(p, ops[0]), ops.drop_first())
    }
}

/// The uncapped win payout is never negative.
pub proof fn lemma_raw_payout_nonneg(amount: u64, target: u8)
    requires
        2 <= target,
    ensures
        0 <= spec_raw_payout(amount, target),
{
    vstd::arithmetic::mul::lemma_mul_nonnegative(
        amount as int,
        (10000 - crate::constants::HOUSE_EDGE) as int,
    );
    vstd::arithmetic::div_mod::lemma_div_pos_is_pos(
        amount * ((10000 - crate::constants::HOUSE_EDGE) as int),
        (target - 1) as int,
    );
    vstd::arithmetic::div_mod::lemma_div_pos_is_pos(
        amount * ((10000 - crate::constants::HOUSE_EDGE) as int) / ((target - 1) as int),
        100,
    );
}

/// Every operation is solvent: whatever it pays out of the pool is at most
/// the pool's balance immediately before it, and the balance moves by
/// exactly the escrowed and paid amounts, so it can never go below zero.
pub proof fn lemma_step_solvent(p: PoolView, op: Op)
    requires
        p.wf(),
    ensures
        spec_step_paid(p, op) <= p.balance,
        spec_step(p, op).wf(),
{
    match op {
        Op::Fund { amount } => {},
        Op::Place { bump, roll, slot, amount, seed, player } => {
            let q = spec_place(p, bump, roll, slot, amount, seed, player).0;
            if 2 <= roll && roll <= 99 && !p.has_seed(seed) && p.balance + amount <= u64::MAX {
                assert forall|i: int, j: int| 0 <= i < j < q.bets.len() implies q.bets[i].seed
                    != q.bets[j].seed by {
                    if j == q.bets.len() - 1 {
                        assert(q.bets[i] == p.bets[i]);
                        assert(p.bets[i].seed != seed) by {
                            if p.bets[i].seed == seed {
                                assert(p.has_seed(seed));
                            }
                        }
                    }
                }
            }
        },
        Op::Resolve { seed, att, sig } => {
            lemma_find_bet(p.bets, seed);
            match spec_find_bet(p.bets, seed) {
                None => {},
                Some(i) => {
                    let bet = p.bets[i];
                    if spec_verify(att, p.house, sig, bet) is Ok {
                        lemma_raw_payout_nonneg(bet.amount, bet.roll);
                        crate::pool::lemma_remove_preserves_wf(p, i);
                    }
                },
            }
        },
        Op::Refund { seed, claimant, now } => {
            lemma_find_bet(p.bets, seed);
            match spec_find_bet(p.bets, seed) {
                None => {},
                Some(i) => {
                    crate::pool::lemma_remove_preserves_wf(p, i);
                },
            }
        },
    }
}

/// Solvency over every sequence of operations: at each step, the payout the
/// operation executes is at most the pool balance immediately before that
/// step, and the pool stays well formed throughout.
pub proof fn lemma_solvency(p: PoolView, ops: Seq<Op>, i: int)
    requires
        p.wf(),
        0 <= i < ops.len(),
    ensures
        spec_run(p, ops.take(i)).wf(),
        spec_step_paid(spec_run(p, ops.take(i)), ops[i]) <= spec_run(p, ops.take(i)).balance,
    decreases i,
{
    if i == 0 {
        assert(ops.take(0).len() == 0);
        lemma_step_solvent(p, ops[0]);
    } else {
        lemma_solvency(p, ops, i - 1);
        lemma_step_solvent(spec_run(p, ops.take(i - 1)), ops[i - 1]);
        assert(ops.take(i).drop_last() =~= ops.take(i - 1));
        lemma_run_snoc(p, ops.take(i));
        lemma_step_solvent(spec_run(p, ops.take(i)), ops[i]);
    }
}

/// Running a nonempty sequence is running all but the last operation, then
/// stepping by the last.
pub proof fn lemma_run_snoc(p: PoolView, ops: Seq<Op>)
    requires
        ops.len() > 0,
    ensures
        spec_run(p, ops) == spec_step(spec_run(p, ops.drop_last()), ops.last()),
    decreases ops.len(),
{
    assert(spec_run(p, ops) == spec_run(spec_step(p, ops[0]), ops.drop_first()));
    if ops.len() == 1 {
        assert(ops.drop_last().len() == 0);
        assert(ops.drop_first().len() == 0);
        assert(ops.last() == ops[0]);
        assert(spec_run(p, ops.drop_last()) == p);
        assert(spec_run(spec_step(p, ops[0]), ops.drop_first()) == spec_step(p, ops[0]));
    } else {
        lemma_run_snoc(spec_step(p, ops[0]), ops.drop_first());
        assert(ops.drop_first().drop_last() =~= ops.drop_last().drop_first());
        assert(ops.drop_first().last() == ops.last());
        assert(ops.drop_last().len() > 0);
        assert(ops.drop_last()[0] == ops[0]);
        assert(spec_run(p, ops.drop_last()) == spec_run(
            spec_step(p, ops[0]),
            ops.drop_last().drop_first(),
        ));
    }
}

/// After a successful resolution or refund destroys a record, no record
/// with that seed remains.
pub proof fn lemma_remove_seed_gone(p: PoolView, i: int)
    requires
        p.wf(),
        0 <= i < p.bets.len(),
    ensures
        spec_find_bet(p.bets.remove(i), p.bets[i].seed) is None,
{
    let seed = p.bets[i].seed;
    let q = p.bets.remove(i);
    lemma_find_bet(q, seed);
    match spec_find_bet(q, seed) {
        None => {},
        Some(j) => {
            let j0 = if j < i {
                j
            } else {
                j + 1
            };
            assert(q[j] == p.bets[j0]);
            assert(false);
        },
    }
}

/// Single destruction: a bet record is destroyed exactly once.  After a
/// resolution succeeds, a refund of the same record fails with the
/// missing-record error, and after a refund succeeds, a resolution of the
/// same record fails the same way.
pub proof fn lemma_single_destruction(
    p: PoolView,
    seed: u128,
    att: Ed25519Attestation,
    sig: Seq<u8>,
    claimant: [u8; 32],
    now: u64,
)
    requires
        p.wf(),
    ensures
        spec_resolve(p, seed, att, sig).1 is Ok ==> spec_refund(
            spec_resolve(p, seed, att, sig).0,
            seed,
            claimant,
            now,
        ).1 == Err::<u64, DiceError>(DiceError::BetNotFound),
        spec_refund(p, seed, claimant, now).1 is Ok ==> spec_resolve(
            spec_refund(p, seed, claimant, now).0,
            seed,
            att,
            sig,
        ).1 == Err::<u64, DiceError>(DiceError::BetNotFound),
{
    lemma_find_bet(p.bets, seed);
    match spec_find_bet(p.bets, seed) {
        None => {},
        Some(i) => {
            lemma_remove_seed_gone(p, i);
        },
    }
}

/// Signature binding: an otherwise valid attestation whose signed message
/// differs from the bet's canonical encoding in even a single byte is
/// rejected with the message-mismatch error.
pub proof fn lemma_signature_binding(
    att: Ed25519Attestation,
    house: Seq<u8>,
    sig: Seq<u8>,
    bet: Bet,
    k: int,
)
    requires
        att.verifier_id@ == spec_ed25519_verifier_id(),
        att.account_count == 0,
        att.signatures@.len() == 1,
        att.signatures@[0].is_verifiable,
        att.signatures@[0].public_key matches Some(pk) && pk@ == house,
        att.signatures@[0].signature matches Some(s) && s@ == sig,
        att.signatures@[0].message matches Some(m) && m@.len() == bet.spec_encoding().len() && 0
            <= k < m@.len() && m@[k] != bet.spec_encoding()[k],
    ensures
        spec_verify(att, house, sig, bet) == Err::<(), DiceError>(DiceError::InvalidEd25519Message),
{
    let m = att.signatures@[0].message->Some_0;
    assert(m@ != bet.spec_encoding()) by {
        if m@ == bet.spec_encoding() {
            assert(m@[k] == bet.spec_encoding()[k]);
        }
    }
}

/// Seed collision: placing against a pool that already holds a record with
/// the same seed fails with the collision error, while a fresh seed with a
/// playable target and a balance that fits always succeeds.
pub proof fn lemma_seed_collision(
    p: PoolView,
    bump: u8,
    roll: u8,
    slot: u64,
    amount: u64,
    seed: u128,
    player: [u8; 32],
)
    requires
        2 <= roll <= 99,
    ensures
        p.has_seed(seed) ==> spec_place(p, bump, roll, slot, amount, seed, player).1 == Err::<
            (),
            DiceError,
        >(DiceError::BetAlreadyExists),
        !p.has_seed(seed) && p.balance + amount <= u64::MAX ==> spec_place(
            p,
            bump,
            roll,
            slot,
            amount,
            seed,
            player,
        ).1 == Ok::<(), DiceError>(()),
{
}

/// Cooldown boundary: with the record present, owned by the claimant, and
/// the pool able to cover the stake, a refund at elapsed distance exactly
/// equal to the threshold fails, and at one past the threshold succeeds.
pub proof fn lemma_cooldown_boundary(p: PoolView, seed: u128, claimant: [u8; 32])
    requires
        p.wf(),
        spec_find_bet(p.bets, seed) matches Some(i) && p.bets[i].player == claimant
            && p.bets[i].slot + REFUND_COOLDOWN_SLOTS + 1 <= u64::MAX
            && p.bets[i].amount <= p.balance,
    ensures
        spec_refund(
            p,
            seed,
            claimant,
            (spec_found_bet(p, seed).slot + REFUND_COOLDOWN_SLOTS) as u64,
        ).1 == Err::<u64, DiceError>(DiceError::RefundCooldownNotElapsed),
        spec_refund(
            p,
            seed,
            claimant,
            (spec_found_bet(p, seed).slot + REFUND_COOLDOWN_SLOTS + 1) as u64,
        ).1 == Ok::<u64, DiceError>(spec_found_bet(p, seed).amount),
{
    lemma_find_bet(p.bets, seed);
}

/// The record a seed designates, where one exists.
pub open spec fn spec_found_bet(p: PoolView, seed: u128) -> Bet
    recommends
        spec_find_bet(p.bets, seed) is Some,
{
    p.bets[spec_find_bet(p.bets, seed)->Some_0]
}

} // verus!
