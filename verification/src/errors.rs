//! The closed sets of error kinds raised by the two engines.
//!
//! Every failure is an immediate, whole-operation abort: no state change nor
//! token movement of a failed operation survives.

use vstd::prelude::*;

verus! {

/// Failures of the liquidity pool engine.
#[derive(Clone, Copy, Debug, PartialEq, Eq, Structural)]
pub enum PoolError {
    /// An operation other than `initialize` ran before initialization.
    NotInitialized,
    /// `initialize` ran twice.
    AlreadyInitialized,
    /// `initialize` was given a token entry with a non-zero recorded supply.
    InvalidTokenSupply,
    /// `initialize` was given target ratios that do not sum to 1.0 scaled.
    InvalidTargetRatio,
    /// A deposit would widen the distance to the target ratio.
    DepositDoesNotImproveRatio,
    /// A borrow asks for more than the pool's held balance.
    InsufficientLiquidity,
    /// The named token is neither of the pool's two assets.
    InvalidTokenAddress,
    /// A price record is older than one day.
    StalePriceData,
    /// A withdrawal of zero value, of more than the pool's value, or of more
    /// tokens than the pool holds.
    InsufficientFundsForWithdrawal,
    /// A borrow would leave less than a tenth of the recorded supply held.
    ExcessiveBorrowing,
}

/// Failures of the position engine.
#[derive(Clone, Copy, Debug, PartialEq, Eq, Structural)]
pub enum PositionManagerError {
    /// `initialize` ran twice.
    AlreadyInitialized,
    /// The trader already has a position open.
    PositionAlreadyExists,
    /// The trader has no position open.
    NoPositionExists,
    /// A price record is older than one day.
    StalePriceData,
    /// The current price has not crossed the liquidation threshold.
    PositionNotLiquidatable,
    /// A fixed-point computation left the representable range.
    OverflowError,
    /// A call into the pool engine failed.
    PoolOperationFailed,
    /// A token movement failed.
    TokenTransferFailed,
    /// A malformed argument.
    InvalidInput,
    /// A resting limit order's condition is not met yet.
    PositionNotFilled,
}

} // verus!
