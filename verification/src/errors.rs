use vstd::prelude::*;

verus! {

/// Errors of the pool program and of the account layer it runs on.
#[derive(Clone, Copy, Debug, PartialEq, Eq, Structural)]
pub enum ErrorCode {
    InvalidTickSpacing,
    InvalidStartTick,
    InvalidTickArraySequence,
    TickNotFound,
    InvalidTickIndex,
    LiquidityZero,
    LiquidityOverflow,
    LiquidityUnderflow,
    LiquidityNetError,
    InvalidTimestamp,
    DifferentWhirlpoolTickArrayAccount,
    ClosePositionNotEmpty,
    SameTickRangeNotAllowed,
    FullRangeOnlyPool,
    InvalidBundleIndex,
    BundledPositionAlreadyOpened,
    BundledPositionAlreadyClosed,
    InvalidFeeTierIndex,
    FeeRateMaxExceeded,
    InvalidAdaptiveFeeConstants,
    /// The account is not owned by the expected program.
    AccountOwnedByWrongProgram,
    /// The account data is too short to hold a discriminator.
    AccountDiscriminatorNotFound,
    /// The account discriminator does not name the expected account type.
    AccountDiscriminatorMismatch,
    /// The account was required to be writable.
    AccountNotMutable,
    /// Serialized tick data could not be decoded.
    InvalidTickData,
}

} // verus!
