use vstd::prelude::*;

verus! {

/// Every way an operation of the settlement core can fail.
///
/// Authentication failures (the `InvalidEd25519*` variants) are fatal and
/// non-retryable without a new, correctly bound signature.  The temporal
/// guard `RefundCooldownNotElapsed` is fatal for the attempt but retryable
/// later.  The remaining variants surface resource and validation failures
/// of the custody model: a duplicate or missing bet record, a target outside
/// the playable range, and balance limits of the pool.
#[derive(Clone, Copy, Debug, PartialEq, Eq, Structural)]
pub enum DiceError {
    /// The preceding verification was not performed by the ed25519 facility.
    InvalidEd25519ProgramID,
    /// The verification operation carried accounts, which it must not.
    InvalidEd25519Accounts,
    /// The verification operation did not contain exactly one signature.
    InvalidEd25519SignatureLen,
    /// The signature was not marked verifiable (malformed header).
    InvalidEd25519Header,
    /// The signature's public key is absent or is not the house key.
    InvalidEd25519Pubkey,
    /// The verified signature bytes differ from the submitted signature.
    InvalidEd25519Signature,
    /// The signed message differs from the bet's canonical encoding.
    InvalidEd25519Message,
    /// Refund attempted before the cooldown distance strictly elapsed.
    RefundCooldownNotElapsed,
    /// Bet placement with a target outside [2, 99].
    TargetOutOfRange,
    /// A bet record with this seed already exists against this pool.
    BetAlreadyExists,
    /// No bet record with this seed exists against this pool.
    BetNotFound,
    /// The claimant of a refund is not the bet's player.
    PlayerMismatch,
    /// The pool balance cannot cover the requested transfer.
    InsufficientPoolFunds,
    /// The pool balance would exceed its representable maximum.
    BalanceOverflow,
}

} // verus!
