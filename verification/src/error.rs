use vstd::prelude::*;

verus! {

/// The errors that the protocol's instructions answer with.
///
/// `InvalidArgument` and `InsufficientFunds` are the two generic program errors that the
/// instructions return beside the protocol's own codes.
#[derive(Debug, Clone, Copy, PartialEq, Eq, Structural)]
pub enum AdrenaError {
    InvalidArgument,
    InsufficientFunds,
    MathOverflow,
    InvalidAccountData,
    InstructionNotAllowed,
    InsufficientAmountReturned,
    MaxPriceSlippage,
    PoolAumSoftCapUsdReached,
    CustodyBelowMinimum,
    CustodyAmountLimit,
    InsufficientCollateral,
    InvalidCustody,
    LimitOrderBookFull,
    LimitOrderNotFound,
    CustodyNotFound,
    RequireKeysNeqViolated,
    PositionTooYoung,
    MissingOrInvalidReferrerAccount,
    InvalidPositionState,
    MissingClosePositionPrice,
    PositionNotInLiquidationRange,
    MaxLeverage,
    InvalidOraclePrice,
    InvalidStakingState,
    InvalidStakingRoundState,
    UserStakeNotFound,
    InvalidStakeState,
    StakeNotEstablished,
    InvalidLockDuration,
    UnresolvedStake,
    InvalidCaller,
    InvalidVestState,
    InvalidVestVersion,
    TitleNotAvailable,
    ProfilePictureNotAvailable,
    WallpaperNotAvailable,
    InvalidWallpaperOrProfilePictureOrTitle,
    InvalidContinentOrTeam,
    WallpaperNotUnlocked,
    ProfilePictureNotUnlocked,
    TitleNotUnlocked,
    TeamImmutable,
}

} // verus!
