use vstd::prelude::*;
use crate::error::ExchangeError;

verus! {

/// Where the pool is in its life.
#[derive(Clone, Copy, Debug, PartialEq, Eq, Structural)]
pub enum GameStatus {
    /// Waiting for the pool's key and for its funding, in either order.
    Initializing { key_ready: bool, funding_ready: bool },
    Playing,
    Ended,
    RewardsMinted,
    LiquidityAdded,
    Withdrawable,
}

impl GameStatus {
    /// The status of a new pool.
    pub fn new() -> (r: GameStatus)
        ensures
            r == (GameStatus::Initializing { key_ready: false, funding_ready: false }),
    {
        GameStatus::Initializing { key_ready: false, funding_ready: false }
    }

    pub open spec fn spec_key_ready(self) -> Result<GameStatus, ExchangeError> {
        match self {
            GameStatus::Initializing { funding_ready, .. } => if funding_ready {
                Ok(GameStatus::Playing)
            } else {
                Ok(GameStatus::Initializing { key_ready: true, funding_ready: false })
            },
            _ => Err(ExchangeError::WrongStatus),
        }
    }

    pub open spec fn spec_funding_ready(self) -> Result<GameStatus, ExchangeError> {
        match self {
            GameStatus::Initializing { key_ready, .. } => if key_ready {
                Ok(GameStatus::Playing)
            } else {
                Ok(GameStatus::Initializing { key_ready: false, funding_ready: true })
            },
            _ => Err(ExchangeError::WrongStatus),
        }
    }

    /// The pool's key is ready: play starts if the funding is ready too.
    #[verifier::when_used_as_spec(spec_key_ready)]
    pub fn key_ready(self) -> (r: Result<GameStatus, ExchangeError>)
        ensures
            r == self.spec_key_ready(),
    {
        match self {
            GameStatus::Initializing { funding_ready, .. } => if funding_ready {
                Ok(GameStatus::Playing)
            } else {
                Ok(GameStatus::Initializing { key_ready: true, funding_ready: false })
            },
            _ => Err(ExchangeError::WrongStatus),
        }
    }

    /// The pool is funded: play starts if the key is ready too.
    #[verifier::when_used_as_spec(spec_funding_ready)]
    pub fn funding_ready(self) -> (r: Result<GameStatus, ExchangeError>)
        ensures
            r == self.spec_funding_ready(),
    {
        match self {
            GameStatus::Initializing { key_ready, .. } => if key_ready {
                Ok(GameStatus::Playing)
            } else {
                Ok(GameStatus::Initializing { key_ready: false, funding_ready: true })
            },
            _ => Err(ExchangeError::WrongStatus),
        }
    }

    /// Play is over.
    pub fn end(self) -> (r: Result<GameStatus, ExchangeError>)
        ensures
            self == GameStatus::Playing ==> r == Ok::<GameStatus, ExchangeError>(GameStatus::Ended),
            self != GameStatus::Playing ==> r == Err::<GameStatus, ExchangeError>(
                ExchangeError::WrongStatus,
            ),
    {
        match self {
            GameStatus::Playing => Ok(GameStatus::Ended),
            _ => Err(ExchangeError::WrongStatus),
        }
    }

    /// The rewards of an ended game are minted.
    pub fn rewards_minted(self) -> (r: Result<GameStatus, ExchangeError>)
        ensures
            self == GameStatus::Ended ==> r == Ok::<GameStatus, ExchangeError>(
                GameStatus::RewardsMinted,
            ),
            self != GameStatus::Ended ==> r == Err::<GameStatus, ExchangeError>(
                ExchangeError::WrongStatus,
            ),
    {
        match self {
            GameStatus::Ended => Ok(GameStatus::RewardsMinted),
            _ => Err(ExchangeError::WrongStatus),
        }
    }

    /// Liquidity is added once the rewards are minted.
    pub fn liquidity_added(self) -> (r: Result<GameStatus, ExchangeError>)
        ensures
            self == GameStatus::RewardsMinted ==> r == Ok::<GameStatus, ExchangeError>(
                GameStatus::LiquidityAdded,
            ),
            self != GameStatus::RewardsMinted ==> r == Err::<GameStatus, ExchangeError>(
                ExchangeError::WrongStatus,
            ),
    {
        match self {
            GameStatus::RewardsMinted => Ok(GameStatus::LiquidityAdded),
            _ => Err(ExchangeError::WrongStatus),
        }
    }

    /// Gamers of an ended game may withdraw.
    pub fn open_withdrawals(self) -> (r: Result<GameStatus, ExchangeError>)
        ensures
            self == GameStatus::Ended ==> r == Ok::<GameStatus, ExchangeError>(
                GameStatus::Withdrawable,
            ),
            self != GameStatus::Ended ==> r == Err::<GameStatus, ExchangeError>(
                ExchangeError::WrongStatus,
            ),
    {
        match self {
            GameStatus::Ended => Ok(GameStatus::Withdrawable),
            _ => Err(ExchangeError::WrongStatus),
        }
    }
}

} // verus!
