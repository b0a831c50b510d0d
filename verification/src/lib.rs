//! Settlement core of a provably fair, single-player dice wager.
//!
//! A player stakes value against a house-funded pool and commits to a target
//! roll; the outcome is a roll in [1, 100] derived from a SHA-256 digest of a
//! house-issued signature over the bet's canonical byte encoding.  This crate
//! holds the bet lifecycle state machine (fund, place, resolve, refund), the
//! fairness checks that bind a resolution to an exact signed bet, and the
//! custody arithmetic that keeps the pool solvent.  The ledger substrate
//! (account storage, value transfer, clock, signature verification) is an
//! external collaborator: its results enter as plain values.

pub mod address;
pub mod bet;
pub mod constants;
pub mod ed25519;
pub mod error;
pub mod fairness;
pub mod laws;
pub mod pool;
