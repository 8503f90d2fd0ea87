use vstd::prelude::*;

verus! {

/// Every way an operation of the pool can fail.
#[derive(Clone, Copy, Debug, PartialEq, Eq, Structural)]
pub enum ErrorCode {
    InsufficientCollateral,
    AssetNotSupported,
    HealthFactorTooLow,
    InvalidAmount,
    RateLimited,
    NotAuthorized,
    CrossChainFailed,
    InvalidPriceData,
    LiquidationNotAllowed,
    PositionNotFound,
    ChainNotSupported,
    PositionHealthy,
    MathOverflow,
    InsufficientFee,
    LayerZeroCpiFailed,
    ChainLimitReached,
    AssetAlreadyRegistered,
}

} // verus!
