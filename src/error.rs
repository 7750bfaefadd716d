use vstd::prelude::*;

verus! {

/// Every way an operation on the pool or its reward game can fail.
#[derive(Clone, Copy, Debug, PartialEq, Eq, Structural)]
pub enum ExchangeError {
    /// The identity already has a gamer entry.
    GamerAlreadyExists,
    /// The identity has no gamer entry.
    GamerNotFound,
    /// The intent's coins or outpoints are not what the action needs.
    InvalidIntent,
    /// The intent was built on a nonce that is no longer the head's; holds the head's nonce.
    StaleNonce(u64),
    /// The intent does not spend the head's output.
    SpendMismatch,
    /// An amount or counter would leave its range.
    Overflow,
    /// The action is not offered by this pool.
    UnsupportedIntent,
    /// Another candidate is between validation and commit.
    PoolBusy,
    /// No pending state has the transaction id.
    UnknownTransaction,
    /// The root state of the ledger cannot be rolled back.
    CannotRollbackRoot,
    /// The genesis state cannot be undone.
    CannotRollbackGenesis,
    /// The ledger holds no state yet.
    LastStateNotFound,
    /// What is left of the reward pool is less than one claim; holds what is left.
    RewardPoolExhausted(u128),
    /// The gamer claimed too recently; holds the time at which a claim is possible.
    CoolingDown(u128),
    /// The gamer has already withdrawn.
    AlreadyWithdrawn,
    /// The game has not ended yet.
    GameNotEnded,
    /// The pool's key or address is not set up yet.
    NotInitialized,
    /// The request names another pool.
    PoolMismatch,
    /// The caller is not the orchestrator.
    AccessDenied,
    /// No admission is held to be completed or abandoned.
    NothingPending,
    /// The game is not in the status that the step needs.
    WrongStatus,
    /// The pool has already been funded.
    AlreadyFunded,
    /// The funding does not match the game's reward pool.
    FundingMismatch,
}

} // verus!
