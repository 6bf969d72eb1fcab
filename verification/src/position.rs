use vstd::prelude::*;

use crate::error::AdrenaError;
use crate::key::Key;
use crate::math::{bps_mul_value, checked_bps_mul, wrapped_sum, BPS_POWER};

verus! {

/// Which way a position trades.
#[derive(Debug, Clone, Copy, PartialEq, Eq, Structural)]
pub enum Side {
    /// The side of a deleted position.
    Unset,
    Long,
    Short,
}

/// A leveraged position: who owns it, the pool and custodies it trades in, its size and
/// collateral in USD and tokens, its fees and interest, and its automated orders.
#[derive(Debug, Clone, Copy, PartialEq, Eq, Structural)]
pub struct Position {
    pub owner: Key,
    pub pool: Key,
    pub custody: Key,
    pub collateral_custody: Key,
    pub id: u64,
    pub side: Side,
    pub open_time: i64,
    pub update_time: i64,
    pub price: u64,
    pub size_usd: u64,
    pub borrow_size_usd: u64,
    pub collateral_usd: u64,
    pub collateral_amount: u64,
    pub locked_amount: u64,
    pub unrealized_interest_usd: u64,
    pub paid_interest_usd: u64,
    pub cumulative_interest_snapshot: u128,
    pub exit_fee_usd: u64,
    pub liquidation_fee_usd: u64,
    pub take_profit_is_set: bool,
    pub take_profit_limit_price: u64,
    pub stop_loss_is_set: bool,
    pub stop_loss_limit_price: u64,
    pub stop_loss_close_position_price: u64,
}

/// Whether a fee is shared with a referrer. Without the trader's profile there is none;
/// with it, the referrer account given must be the profile's referrer, and no account may
/// be given where the profile has none (`MissingOrInvalidReferrerAccount` otherwise).
/// `profile_referrer` is the referrer the trader's profile records, if a profile is given.
pub fn resolve_referrer(profile_referrer: Option<Key>, referrer_account: Option<Key>) -> (r: Result<
    bool,
    AdrenaError,
>)
    ensures
        profile_referrer is None ==> r == Ok::<bool, AdrenaError>(false),
        profile_referrer matches Some(p) ==> (match referrer_account {
            Some(k) => if p == k {
                r == Ok::<bool, AdrenaError>(true)
            } else {
                r == Err::<bool, AdrenaError>(AdrenaError::MissingOrInvalidReferrerAccount)
            },
            None => if p == Key::default_spec() {
                r == Ok::<bool, AdrenaError>(false)
            } else {
                r == Err::<bool, AdrenaError>(AdrenaError::MissingOrInvalidReferrerAccount)
            },
        }),
{
    match profile_referrer {
        None => Ok(false),
        Some(p) => match referrer_account {
            Some(k) => {
                if p == k {
                    Ok(true)
                } else {
                    Err(AdrenaError::MissingOrInvalidReferrerAccount)
                }
            },
            None => {
                if p == Key::default_key() {
                    Ok(false)
                } else {
                    Err(AdrenaError::MissingOrInvalidReferrerAccount)
                }
            },
        },
    }
}

/// The fees a pool owes, in USD: to stakers and the protocol, and to referrers.
#[derive(Debug, Clone, Copy, PartialEq, Eq, Structural)]
pub struct PoolFees {
    pub fees_debt_usd: u64,
    pub referrers_fee_debt_usd: u64,
    pub cumulative_referrer_fee_usd: u64,
}

/// The referral fees a referrer earned.
#[derive(Debug, Clone, Copy, PartialEq, Eq, Structural)]
pub struct ReferrerFees {
    pub claimable_referral_fee_usd: u64,
    pub total_referral_fee_usd: u64,
}

/// `a - b`, or zero where `b` exceeds `a`.
pub open spec fn saturating_diff(a: u64, b: u64) -> u64 {
    if a >= b { (a - b) as u64 } else { 0 }
}

/// Shares a trading fee of `fee_usd`: with a referrer, the protocol's share of it
/// (`protocol_fee_usd`) goes to the referrer; the liquidity providers' share (`lp_fee_usd`)
/// stays in the pool; the rest becomes a debt of the pool to stakers and the protocol.
/// Returns the referrer's share.
pub fn distribute_position_fee(
    pool: &mut PoolFees,
    referrer: &mut ReferrerFees,
    fee_usd: u64,
    has_referrer: bool,
    protocol_fee_usd: u64,
    lp_fee_usd: u64,
) -> (referrer_fee: u64)
    requires
        (if has_referrer { protocol_fee_usd as int } else { 0int }) + lp_fee_usd <= fee_usd,
        old(pool).fees_debt_usd + fee_usd <= u64::MAX,
        has_referrer ==> {
            &&& old(pool).referrers_fee_debt_usd + protocol_fee_usd <= u64::MAX
            &&& old(pool).cumulative_referrer_fee_usd + protocol_fee_usd <= u64::MAX
            &&& old(referrer).claimable_referral_fee_usd + protocol_fee_usd <= u64::MAX
            &&& old(referrer).total_referral_fee_usd + protocol_fee_usd <= u64::MAX
        },
    ensures
        referrer_fee == (if has_referrer { protocol_fee_usd } else { 0 }),
        final(pool).fees_debt_usd == old(pool).fees_debt_usd + fee_usd - referrer_fee - lp_fee_usd,
        final(pool).referrers_fee_debt_usd == old(pool).referrers_fee_debt_usd + referrer_fee,
        final(pool).cumulative_referrer_fee_usd == old(pool).cumulative_referrer_fee_usd + referrer_fee,
        has_referrer ==> *final(referrer) == (ReferrerFees {
            claimable_referral_fee_usd: (old(referrer).claimable_referral_fee_usd + referrer_fee) as u64,
            total_referral_fee_usd: (old(referrer).total_referral_fee_usd + referrer_fee) as u64,
        }),
        !has_referrer ==> *final(referrer) == *old(referrer),
        (final(pool).fees_debt_usd - old(pool).fees_debt_usd) + (final(pool).referrers_fee_debt_usd
            - old(pool).referrers_fee_debt_usd) + lp_fee_usd == fee_usd,
{
    let referrer_fee: u64 = if has_referrer { protocol_fee_usd } else { 0 };
    pool.fees_debt_usd = pool.fees_debt_usd + (fee_usd - referrer_fee - lp_fee_usd);
    pool.referrers_fee_debt_usd = pool.referrers_fee_debt_usd + referrer_fee;
    pool.cumulative_referrer_fee_usd = pool.cumulative_referrer_fee_usd + referrer_fee;
    if has_referrer {
        referrer.claimable_referral_fee_usd = referrer.claimable_referral_fee_usd + referrer_fee;
        referrer.total_referral_fee_usd = referrer.total_referral_fee_usd + referrer_fee;
    }
    referrer_fee
}

/// The fee of a closed position still to share: its total fee less the interest already
/// paid (which was shared when it was paid), never below zero.
pub fn fee_to_distribute(total_fee_usd: u64, paid_interest_usd: u64) -> (f: u64)
    ensures
        f == saturating_diff(total_fee_usd, paid_interest_usd),
{
    total_fee_usd.saturating_sub(paid_interest_usd)
}

/// The tokens a custody holds for positions: those it owns and those it keeps as traders'
/// collateral.
#[derive(Debug, Clone, Copy, PartialEq, Eq, Structural)]
pub struct CustodyAssets {
    pub owned: u64,
    pub collateral: u64,
    pub locked: u64,
}

/// Books the exit of a position in the custody that held its collateral: the trader is paid
/// `close_amount`; the position's collateral stops being held as collateral, and what the
/// payout does not cover of it becomes the pool's (or what the payout exceeds it by is
/// taken from the pool's tokens); the `locked_amount` tokens locked for its payout are
/// unlocked.
pub fn settle_position_exit(assets: &mut CustodyAssets, position_collateral: u64, locked_amount: u64, close_amount: u64)
    requires
        old(assets).collateral >= position_collateral,
        old(assets).locked >= locked_amount,
        close_amount > position_collateral ==> old(assets).owned >= close_amount - position_collateral,
        close_amount <= position_collateral ==> old(assets).owned + position_collateral - close_amount <= u64::MAX,
    ensures
        final(assets).owned + close_amount == old(assets).owned + position_collateral,
        final(assets).collateral == old(assets).collateral - position_collateral,
        final(assets).locked == old(assets).locked - locked_amount,
{
    if close_amount > position_collateral {
        assets.owned = assets.owned - (close_amount - position_collateral);
    } else {
        assets.owned = assets.owned + (position_collateral - close_amount);
    }
    assets.collateral = assets.collateral - position_collateral;
    assets.locked = assets.locked - locked_amount;
}

/// The share of a position a close asks for, in hundredths of a basis point: from 1%
/// (`BPS_POWER`) to 100% (`BPS_POWER * 100`).
pub open spec fn close_percentage_valid(percentage: u64) -> bool {
    BPS_POWER <= percentage <= BPS_POWER * 100
}

/// What a close of a short position asks for: the worst exit price the trader accepts, if
/// any, and the share of the position to close.
#[derive(Debug, Clone, Copy, PartialEq, Eq, Structural)]
pub struct ClosePositionShortParams {
    pub price: Option<u64>,
    pub percentage: u64,
}

/// Who closes a position, and what its automated orders say at the current trade price.
#[derive(Debug, Clone, Copy, PartialEq, Eq, Structural)]
pub struct CloseTriggers {
    pub caller_is_owner: bool,
    pub take_profit_reached: bool,
    pub stop_loss_reached: bool,
    pub stop_loss_slippage_ok: bool,
}

/// The referrer accounts an instruction is given: the referrer that the trader's profile
/// records (where a profile is given), and the referrer profile given.
#[derive(Debug, Clone, Copy, PartialEq, Eq, Structural)]
pub struct Referral {
    pub profile_referrer: Option<Key>,
    pub referrer_account: Option<Key>,
}

/// The error of a referral check (see `resolve_referrer`), if any.
pub open spec fn referral_error(referral: Referral) -> Option<AdrenaError> {
    match referral.profile_referrer {
        None => None,
        Some(p) => match referral.referrer_account {
            Some(k) => if p == k { None } else { Some(AdrenaError::MissingOrInvalidReferrerAccount) },
            None => if p == Key::default_spec() { None } else { Some(AdrenaError::MissingOrInvalidReferrerAccount) },
        },
    }
}

/// Whether a fee is shared with a referrer, for a referral that passes its check.
pub open spec fn referral_shares_fee(referral: Referral) -> bool {
    referral.profile_referrer is Some && referral.referrer_account is Some
}

/// The error that a close is answered with before it is priced, in the order of the checks.
pub open spec fn close_request_error(
    position: Position,
    params: ClosePositionShortParams,
    triggers: CloseTriggers,
    referral: Referral,
    current_time: i64,
    min_open_seconds: i64,
    exit_price: u64,
) -> Option<AdrenaError> {
    if current_time < position.open_time + min_open_seconds {
        Some(AdrenaError::PositionTooYoung)
    } else if params.price == Some(0u64) {
        Some(AdrenaError::InvalidArgument)
    } else if !close_percentage_valid(params.percentage) {
        Some(AdrenaError::InvalidArgument)
    } else if referral_error(referral) is Some {
        referral_error(referral)
    } else if !triggers.caller_is_owner && !((position.take_profit_is_set && triggers.take_profit_reached)
        || (position.stop_loss_is_set && triggers.stop_loss_reached)) {
        Some(AdrenaError::InvalidPositionState)
    } else if !triggers.caller_is_owner && !triggers.stop_loss_slippage_ok {
        Some(AdrenaError::MaxPriceSlippage)
    } else if !triggers.caller_is_owner && params.percentage < BPS_POWER * 100 {
        Some(AdrenaError::InvalidPositionState)
    } else if triggers.caller_is_owner && params.price is None {
        Some(AdrenaError::MissingClosePositionPrice)
    } else if params.price matches Some(p) && p < exit_price {
        Some(AdrenaError::MaxPriceSlippage)
    } else {
        None
    }
}

/// Checks a request to close a short position at trade price `exit_price`. Only the owner
/// may close at will; anyone may close the whole position once its take-profit or
/// stop-loss is reached. Returns whether the close is partial and whether its fee is shared
/// with a referrer.
pub fn check_close_request(
    position: &Position,
    params: &ClosePositionShortParams,
    triggers: &CloseTriggers,
    referral: &Referral,
    current_time: i64,
    min_open_seconds: i64,
    exit_price: u64,
) -> (r: Result<(bool, bool), AdrenaError>)
    requires
        i64::MIN <= position.open_time + min_open_seconds <= i64::MAX,
    ensures
        close_request_error(*position, *params, *triggers, *referral, current_time, min_open_seconds, exit_price)
            matches Some(e) ==> r == Err::<(bool, bool), AdrenaError>(e),
        close_request_error(*position, *params, *triggers, *referral, current_time, min_open_seconds, exit_price)
            is None ==> r == Ok::<(bool, bool), AdrenaError>(
            (params.percentage < BPS_POWER * 100, referral_shares_fee(*referral)),
        ),
{
    if current_time < position.open_time + min_open_seconds {
        return Err(AdrenaError::PositionTooYoung);
    }
    if let Some(p) = params.price {
        if p == 0 {
            return Err(AdrenaError::InvalidArgument);
        }
    }
    if !((BPS_POWER as u64) <= params.percentage && params.percentage <= (BPS_POWER as u64) * 100) {
        return Err(AdrenaError::InvalidArgument);
    }
    let is_partial_close = (params.percentage as u128) < BPS_POWER * 100;
    let has_referrer = resolve_referrer(referral.profile_referrer, referral.referrer_account)?;
    if !triggers.caller_is_owner {
        if !((position.take_profit_is_set && triggers.take_profit_reached) || (position.stop_loss_is_set
            && triggers.stop_loss_reached)) {
            return Err(AdrenaError::InvalidPositionState);
        }
        if !triggers.stop_loss_slippage_ok {
            return Err(AdrenaError::MaxPriceSlippage);
        }
        if is_partial_close {
            return Err(AdrenaError::InvalidPositionState);
        }
    } else {
        if params.price.is_none() {
            return Err(AdrenaError::MissingClosePositionPrice);
        }
    }
    if let Some(p) = params.price {
        if p < exit_price {
            return Err(AdrenaError::MaxPriceSlippage);
        }
    }
    Ok((is_partial_close, has_referrer))
}

/// What an opening of a long position asks for.
#[derive(Debug, Clone, Copy, PartialEq, Eq, Structural)]
pub struct OpenPositionLongParams {
    /// The worst entry price the trader accepts.
    pub price: u64,
    pub collateral: u64,
    /// In basis points: `BPS_POWER` is 1x.
    pub leverage: u32,
}

/// Who opens the position and from which account.
#[derive(Debug, Clone, Copy, PartialEq, Eq, Structural)]
pub struct OpenPositionCaller {
    /// The protocol's transfer authority opens it (for a limit order).
    pub caller_is_transfer_authority: bool,
    /// The funding account belongs to the transfer authority.
    pub funding_owned_by_transfer_authority: bool,
    /// The owner signed.
    pub owner_is_signer: bool,
    /// The funding account belongs to the owner.
    pub funding_owned_by_owner: bool,
}

/// The error an opening of a long position is answered with, in the order of the checks:
/// trading must be allowed, the request must not hold zeros, the custody must not be a
/// stablecoin, the funds must come from the right account, the trade price must not exceed
/// the trader's price, and the collateral must be worth at least `min_collateral_usd`.
pub open spec fn open_position_long_error(
    trade_allowed: bool,
    params: OpenPositionLongParams,
    custody_is_stable: bool,
    caller: OpenPositionCaller,
    trade_price: u64,
    collateral_usd: u64,
    min_collateral_usd: u64,
) -> Option<AdrenaError> {
    if !trade_allowed {
        Some(AdrenaError::InstructionNotAllowed)
    } else if params.price == 0 || params.collateral == 0 || params.leverage == 0 {
        Some(AdrenaError::InvalidArgument)
    } else if custody_is_stable {
        Some(AdrenaError::InvalidCustody)
    } else if caller.caller_is_transfer_authority && !caller.funding_owned_by_transfer_authority {
        Some(AdrenaError::InvalidArgument)
    } else if !caller.caller_is_transfer_authority && (!caller.owner_is_signer || !caller.funding_owned_by_owner) {
        Some(AdrenaError::InvalidArgument)
    } else if params.price < trade_price {
        Some(AdrenaError::MaxPriceSlippage)
    } else if collateral_usd < min_collateral_usd {
        Some(AdrenaError::InsufficientCollateral)
    } else if bps_mul_value(params.collateral as nat, params.leverage as nat) > u64::MAX {
        Some(AdrenaError::MathOverflow)
    } else {
        None
    }
}

/// Checks the opening of a long position and sizes it: the position's size, in collateral
/// tokens, is the collateral times the leverage. `collateral_usd` is the collateral's value at
/// the collateral token's low price.
pub fn open_position_long_size(
    trade_allowed: bool,
    params: &OpenPositionLongParams,
    custody_is_stable: bool,
    caller: &OpenPositionCaller,
    trade_price: u64,
    collateral_usd: u64,
    min_collateral_usd: u64,
) -> (r: Result<u64, AdrenaError>)
    ensures
        open_position_long_error(trade_allowed, *params, custody_is_stable, *caller, trade_price, collateral_usd, min_collateral_usd)
            matches Some(e) ==> r == Err::<u64, AdrenaError>(e),
        open_position_long_error(trade_allowed, *params, custody_is_stable, *caller, trade_price, collateral_usd, min_collateral_usd)
            is None ==> r == Ok::<u64, AdrenaError>(bps_mul_value(params.collateral as nat, params.leverage as nat) as u64),
{
    if !trade_allowed {
        return Err(AdrenaError::InstructionNotAllowed);
    }
    if params.price == 0 || params.collateral == 0 || params.leverage == 0 {
        return Err(AdrenaError::InvalidArgument);
    }
    if custody_is_stable {
        return Err(AdrenaError::InvalidCustody);
    }
    if caller.caller_is_transfer_authority {
        if !caller.funding_owned_by_transfer_authority {
            return Err(AdrenaError::InvalidArgument);
        }
    } else {
        if !caller.owner_is_signer {
            return Err(AdrenaError::InvalidArgument);
        }
        if !caller.funding_owned_by_owner {
            return Err(AdrenaError::InvalidArgument);
        }
    }
    if params.price < trade_price {
        return Err(AdrenaError::MaxPriceSlippage);
    }
    if collateral_usd < min_collateral_usd {
        return Err(AdrenaError::InsufficientCollateral);
    }
    checked_bps_mul(params.collateral, params.leverage as u64)
}

/// How many collateral tokens are added to a short position.
#[derive(Debug, Clone, Copy, PartialEq, Eq, Structural)]
pub struct AddCollateralShortParams {
    pub collateral: u64,
}

/// Adds `params.collateral` tokens of collateral, worth `collateral_usd` (at the collateral
/// token's low price), to a short position at `current_time`, and to the collateral its
/// collateral custody holds (`custody_collateral`). `InvalidArgument` for zero collateral;
/// where the pool's leverage check of the position after the addition (`leverage_check`)
/// fails, its error. An error changes nothing.
pub fn add_collateral_short(
    position: &mut Position,
    params: &AddCollateralShortParams,
    collateral_usd: u64,
    leverage_check: Result<(), AdrenaError>,
    current_time: i64,
    custody_collateral: &mut u64,
) -> (r: Result<(), AdrenaError>)
    requires
        params.collateral != 0 ==> {
            &&& old(position).collateral_usd + collateral_usd <= u64::MAX
            &&& old(position).collateral_amount + params.collateral <= u64::MAX
            &&& *old(custody_collateral) + params.collateral <= u64::MAX
        },
    ensures
        params.collateral == 0 ==> r == Err::<(), AdrenaError>(AdrenaError::InvalidArgument)
            && *final(position) == *old(position) && *final(custody_collateral) == *old(custody_collateral),
        params.collateral != 0 && leverage_check is Err ==> r == Err::<(), AdrenaError>(leverage_check->Err_0)
            && *final(position) == *old(position) && *final(custody_collateral) == *old(custody_collateral),
        params.collateral != 0 && leverage_check is Ok ==> *final(custody_collateral) == *old(custody_collateral) + params.collateral,
        params.collateral != 0 && leverage_check is Ok ==> r == Ok::<(), AdrenaError>(()) && *final(position) == (Position {
            update_time: current_time,
            collateral_usd: (old(position).collateral_usd + collateral_usd) as u64,
            collateral_amount: (old(position).collateral_amount + params.collateral) as u64,
            ..*old(position)
        }),
{
    let collateral: u64 = params.collateral;
    if collateral == 0 {
        return Err(AdrenaError::InvalidArgument);
    }
    leverage_check?;
    position.update_time = current_time;
    position.collateral_usd = position.collateral_usd + collateral_usd;
    position.collateral_amount = position.collateral_amount + collateral;
    *custody_collateral = *custody_collateral + collateral;
    Ok(())
}

/// How much collateral, in USD, is taken out of a long position.
#[derive(Debug, Clone, Copy, PartialEq, Eq, Structural)]
pub struct RemoveCollateralLongParams {
    pub collateral_usd: u64,
}

/// The error a removal of collateral from a long position is answered with, in the order of
/// the checks: trading must be allowed (`InstructionNotAllowed`); the amount must be positive
/// and below the position's collateral (`InvalidArgument`); the `collateral` tokens it buys
/// must be held (`InsufficientFunds`); and the pool's leverage check of the position after
/// the removal (`leverage_check`) must pass.
pub open spec fn remove_collateral_long_error(
    position: Position,
    trade_allowed: bool,
    params: RemoveCollateralLongParams,
    collateral: u64,
    leverage_check: Result<(), AdrenaError>,
) -> Option<AdrenaError> {
    if !trade_allowed {
        Some(AdrenaError::InstructionNotAllowed)
    } else if params.collateral_usd == 0 || params.collateral_usd >= position.collateral_usd {
        Some(AdrenaError::InvalidArgument)
    } else if collateral > position.collateral_amount {
        Some(AdrenaError::InsufficientFunds)
    } else if leverage_check is Err {
        Some(leverage_check->Err_0)
    } else {
        None
    }
}

/// Takes `params.collateral_usd` worth of collateral out of a long position at
/// `current_time`: `collateral` tokens, the amount it buys at the token's high price, leave
/// the position and the custody's collateral (`custody_collateral`, and
/// `long_collateral_usd`, the long positions' collateral in USD). See
/// `remove_collateral_long_error` for the errors; an error changes nothing.
pub fn remove_collateral_long(
    position: &mut Position,
    trade_allowed: bool,
    params: &RemoveCollateralLongParams,
    collateral: u64,
    leverage_check: Result<(), AdrenaError>,
    current_time: i64,
    custody_collateral: &mut u64,
    long_collateral_usd: &mut u64,
) -> (r: Result<(), AdrenaError>)
    requires
        remove_collateral_long_error(*old(position), trade_allowed, *params, collateral, leverage_check) is None ==> {
            &&& *old(custody_collateral) >= collateral
            &&& *old(long_collateral_usd) >= params.collateral_usd
        },
    ensures
        ({
            let err = remove_collateral_long_error(*old(position), trade_allowed, *params, collateral, leverage_check);
            &&& err matches Some(e) ==> {
                &&& r == Err::<(), AdrenaError>(e)
                &&& *final(position) == *old(position)
                &&& *final(custody_collateral) == *old(custody_collateral)
                &&& *final(long_collateral_usd) == *old(long_collateral_usd)
            }
            &&& err is None ==> {
                &&& r == Ok::<(), AdrenaError>(())
                &&& *final(position) == (Position {
                    update_time: current_time,
                    collateral_usd: (old(position).collateral_usd - params.collateral_usd) as u64,
                    collateral_amount: (old(position).collateral_amount - collateral) as u64,
                    ..*old(position)
                })
                &&& *final(custody_collateral) == *old(custody_collateral) - collateral
                &&& *final(long_collateral_usd) == *old(long_collateral_usd) - params.collateral_usd
            }
        }),
{
    let collateral_usd: u64 = params.collateral_usd;
    if !trade_allowed {
        return Err(AdrenaError::InstructionNotAllowed);
    }
    if collateral_usd == 0 || collateral_usd >= position.collateral_usd {
        return Err(AdrenaError::InvalidArgument);
    }
    if collateral > position.collateral_amount {
        return Err(AdrenaError::InsufficientFunds);
    }
    leverage_check?;
    position.update_time = current_time;
    position.collateral_usd = position.collateral_usd - collateral_usd;
    position.collateral_amount = position.collateral_amount - collateral;
    *custody_collateral = *custody_collateral - collateral;
    *long_collateral_usd = *long_collateral_usd - collateral_usd;
    Ok(())
}

/// The collateral a liquidation price is asked for: tokens added and tokens removed.
#[derive(Debug, Clone, Copy, PartialEq, Eq, Structural)]
pub struct GetLiquidationPriceParams {
    pub add_collateral: u64,
    pub remove_collateral: u64,
}

/// The position that the liquidation-price view prices: the position at `current_time` with
/// collateral added (worth `add_collateral_usd` at the low price) and removed (worth
/// `remove_collateral_usd` at the high price). `InsufficientFunds` where the removal would
/// take all the collateral.
pub fn position_for_liquidation_price(
    position: &Position,
    params: &GetLiquidationPriceParams,
    add_collateral_usd: u64,
    remove_collateral_usd: u64,
    current_time: i64,
) -> (r: Result<Position, AdrenaError>)
    requires
        params.add_collateral > 0 ==> {
            &&& position.collateral_usd + add_collateral_usd <= u64::MAX
            &&& position.collateral_amount + params.add_collateral <= u64::MAX
        },
    ensures
        ({
            let added_usd = if params.add_collateral > 0 { position.collateral_usd + add_collateral_usd } else { position.collateral_usd as int };
            let added = if params.add_collateral > 0 { position.collateral_amount + params.add_collateral } else { position.collateral_amount as int };
            let fails = params.remove_collateral > 0 && (remove_collateral_usd >= added_usd || params.remove_collateral >= added);
            &&& fails ==> r == Err::<Position, AdrenaError>(AdrenaError::InsufficientFunds)
            &&& !fails ==> r == Ok::<Position, AdrenaError>(Position {
                update_time: current_time,
                collateral_usd: (if params.remove_collateral > 0 { added_usd - remove_collateral_usd } else { added_usd }) as u64,
                collateral_amount: (if params.remove_collateral > 0 { added - params.remove_collateral } else { added }) as u64,
                ..*position
            })
        }),
{
    let add_collateral: u64 = params.add_collateral;
    let remove_collateral: u64 = params.remove_collateral;
    let mut p = *position;
    p.update_time = current_time;
    if add_collateral > 0 {
        p.collateral_usd = p.collateral_usd + add_collateral_usd;
        p.collateral_amount = p.collateral_amount + add_collateral;
    }
    if remove_collateral > 0 {
        if remove_collateral_usd >= p.collateral_usd || remove_collateral >= p.collateral_amount {
            return Err(AdrenaError::InsufficientFunds);
        }
        p.collateral_usd = p.collateral_usd - remove_collateral_usd;
        p.collateral_amount = p.collateral_amount - remove_collateral;
    }
    Ok(p)
}

/// Where the stop-loss of a long position triggers, and the lowest price it closes at.
#[derive(Debug, Clone, Copy, PartialEq, Eq, Structural)]
pub struct SetStopLossLongParams {
    pub stop_loss_limit_price: u64,
    pub close_position_price: Option<u64>,
}

/// Sets the stop-loss of a long position: it triggers at `params.stop_loss_limit_price` and
/// closes no lower than `params.close_position_price` (zero where none is given).
/// `InvalidArgument` where the close price is above the trigger.
pub fn set_stop_loss_long(position: &mut Position, params: &SetStopLossLongParams) -> (r: Result<(), AdrenaError>)
    ensures
        params.close_position_price matches Some(c) && params.stop_loss_limit_price < c ==> r == Err::<(), AdrenaError>(
            AdrenaError::InvalidArgument,
        ) && *final(position) == *old(position),
        !(params.close_position_price matches Some(c) && params.stop_loss_limit_price < c) ==> r == Ok::<(), AdrenaError>(())
            && *final(position) == (Position {
            stop_loss_is_set: true,
            stop_loss_limit_price: params.stop_loss_limit_price,
            stop_loss_close_position_price: match params.close_position_price {
                Some(c) => c,
                None => 0,
            },
            ..*old(position)
        }),
{
    if let Some(c) = params.close_position_price {
        if params.stop_loss_limit_price < c {
            return Err(AdrenaError::InvalidArgument);
        }
    }
    position.stop_loss_is_set = true;
    position.stop_loss_limit_price = params.stop_loss_limit_price;
    position.stop_loss_close_position_price = match params.close_position_price {
        Some(c) => c,
        None => 0,
    };
    Ok(())
}

/// Where the take-profit of a long position triggers.
#[derive(Debug, Clone, Copy, PartialEq, Eq, Structural)]
pub struct SetTakeProfitLongParams {
    pub take_profit_limit_price: u64,
}

/// Sets the take-profit of a long position at `params.take_profit_limit_price`.
pub fn set_take_profit_long(position: &mut Position, params: &SetTakeProfitLongParams)
    ensures
        *final(position) == (Position {
            take_profit_is_set: true,
            take_profit_limit_price: params.take_profit_limit_price,
            ..*old(position)
        }),
{
    position.take_profit_is_set = true;
    position.take_profit_limit_price = params.take_profit_limit_price;
}

/// Cancels the take-profit of a position, if one is set. Returns whether one was.
pub fn cancel_take_profit(position: &mut Position) -> (was_set: bool)
    ensures
        was_set == old(position).take_profit_is_set,
        was_set ==> *final(position) == (Position {
            take_profit_is_set: false,
            take_profit_limit_price: 0,
            ..*old(position)
        }),
        !was_set ==> *final(position) == *old(position),
{
    if !position.take_profit_is_set {
        return false;
    }
    position.take_profit_is_set = false;
    position.take_profit_limit_price = 0;
    true
}

/// Settles the borrow interest a position owes: the interest accrued since its last snapshot
/// (`accrued_interest_usd`) plus what it had not yet paid. Where nothing is due, nothing
/// changes and `None` is returned. Otherwise the position records the payment and its new
/// interest snapshot; the amount due is shared as a fee (see `distribute_position_fee`, with
/// the referrer where `has_referrer`, `protocol_fee_usd` and `lp_fee_usd` being its shares)
/// and booked in the collateral custody's collected borrow fees and in the traded custody's
/// trader losses; and the amount due is returned.
pub fn resolve_position_borrow_fees(
    position: &mut Position,
    accrued_interest_usd: u64,
    cumulative_interest: u128,
    has_referrer: bool,
    protocol_fee_usd: u64,
    lp_fee_usd: u64,
    pool: &mut PoolFees,
    referrer: &mut ReferrerFees,
    collected_borrow_fees_usd: &mut u64,
    trade_loss_usd: &mut u64,
) -> (r: Option<u64>)
    requires
        old(position).unrealized_interest_usd + accrued_interest_usd <= u64::MAX,
        ({
            let due = old(position).unrealized_interest_usd + accrued_interest_usd;
            let referrer_fee: int = if has_referrer { protocol_fee_usd as int } else { 0 };
            due != 0 ==> {
                &&& old(position).paid_interest_usd + due <= u64::MAX
                &&& referrer_fee + lp_fee_usd <= due
                &&& old(pool).fees_debt_usd + due <= u64::MAX
                &&& old(pool).referrers_fee_debt_usd + referrer_fee <= u64::MAX
                &&& old(pool).cumulative_referrer_fee_usd + referrer_fee <= u64::MAX
                &&& has_referrer ==> {
                    &&& old(referrer).claimable_referral_fee_usd + protocol_fee_usd <= u64::MAX
                    &&& old(referrer).total_referral_fee_usd + protocol_fee_usd <= u64::MAX
                }
                &&& *old(collected_borrow_fees_usd) + due <= u64::MAX
                &&& *old(trade_loss_usd) + due <= u64::MAX
            }
        }),
    ensures
        ({
            let due = old(position).unrealized_interest_usd + accrued_interest_usd;
            let referrer_fee: u64 = if has_referrer { protocol_fee_usd } else { 0 };
            &&& due == 0 ==> {
                &&& r is None
                &&& *final(position) == *old(position)
                &&& *final(pool) == *old(pool)
                &&& *final(referrer) == *old(referrer)
                &&& *final(collected_borrow_fees_usd) == *old(collected_borrow_fees_usd)
                &&& *final(trade_loss_usd) == *old(trade_loss_usd)
            }
            &&& due != 0 ==> {
                &&& r == Some(due as u64)
                &&& *final(position) == (Position {
                    unrealized_interest_usd: 0,
                    cumulative_interest_snapshot: cumulative_interest,
                    paid_interest_usd: (old(position).paid_interest_usd + due) as u64,
                    ..*old(position)
                })
                &&& *final(pool) == pool_fees_after(*old(pool), due as u64, referrer_fee, lp_fee_usd)
                &&& *final(referrer) == referrer_after(*old(referrer), has_referrer, referrer_fee)
                &&& *final(collected_borrow_fees_usd) == *old(collected_borrow_fees_usd) + due
                &&& *final(trade_loss_usd) == *old(trade_loss_usd) + due
            }
        }),
{
    let due = accrued_interest_usd + position.unrealized_interest_usd;
    if due == 0 {
        return None;
    }
    position.unrealized_interest_usd = 0;
    position.cumulative_interest_snapshot = cumulative_interest;
    position.paid_interest_usd = position.paid_interest_usd + due;
    distribute_position_fee(pool, referrer, due, has_referrer, protocol_fee_usd, lp_fee_usd);
    *collected_borrow_fees_usd = *collected_borrow_fees_usd + due;
    *trade_loss_usd = *trade_loss_usd + due;
    Some(due)
}

/// What the exit of a position comes to, as the pool computes it at the exit price.
#[derive(Debug, Clone, Copy, PartialEq, Eq, Structural)]
pub struct ExitNumbers {
    /// The tokens paid to the trader.
    pub close_amount: u64,
    pub exit_fee_usd: u64,
    pub borrow_fee_usd: u64,
    pub loss_usd: u64,
    pub profit_usd: u64,
    pub total_fee_usd: u64,
}

/// The fees a custody collects from the positions whose collateral it holds, as they
/// leave, in USD: their exit fees (of closes or of liquidations) and their borrow fees.
#[derive(Debug, Clone, Copy, PartialEq, Eq, Structural)]
pub struct ExitFeeStats {
    pub exit_fees_usd: u64,
    pub borrow_fees_usd: u64,
}

/// The running statistics a custody keeps of the positions that trade it, as they leave,
/// in USD: the volume, the open interest on the position's side, and the traders' losses
/// and profits.
#[derive(Debug, Clone, Copy, PartialEq, Eq, Structural)]
pub struct ExitTradeStats {
    pub volume_usd: u64,
    pub open_interest_usd: u64,
    pub loss_usd: u64,
    pub profit_usd: u64,
}

/// Books the exit of a position of `size_usd` that already paid `paid_interest_usd` of
/// interest: the interest already paid is counted neither again as a borrow fee nor as a
/// loss; the position's size leaves the open interest and joins the volume.
pub fn record_exit_stats(
    fees: &mut ExitFeeStats,
    trade: &mut ExitTradeStats,
    exit: &ExitNumbers,
    size_usd: u64,
    paid_interest_usd: u64,
)
    requires
        old(fees).exit_fees_usd + exit.exit_fee_usd <= u64::MAX,
        old(fees).borrow_fees_usd + saturating_diff(exit.borrow_fee_usd, paid_interest_usd) <= u64::MAX,
        old(trade).volume_usd + size_usd <= u64::MAX,
        old(trade).open_interest_usd >= size_usd,
        old(trade).loss_usd + saturating_diff(exit.loss_usd, paid_interest_usd) <= u64::MAX,
        old(trade).profit_usd + exit.profit_usd <= u64::MAX,
    ensures
        *final(fees) == (ExitFeeStats {
            exit_fees_usd: (old(fees).exit_fees_usd + exit.exit_fee_usd) as u64,
            borrow_fees_usd: (old(fees).borrow_fees_usd + saturating_diff(exit.borrow_fee_usd, paid_interest_usd)) as u64,
        }),
        *final(trade) == (ExitTradeStats {
            volume_usd: (old(trade).volume_usd + size_usd) as u64,
            open_interest_usd: (old(trade).open_interest_usd - size_usd) as u64,
            loss_usd: (old(trade).loss_usd + saturating_diff(exit.loss_usd, paid_interest_usd)) as u64,
            profit_usd: (old(trade).profit_usd + exit.profit_usd) as u64,
        }),
{
    fees.exit_fees_usd = fees.exit_fees_usd + exit.exit_fee_usd;
    fees.borrow_fees_usd = fees.borrow_fees_usd + exit.borrow_fee_usd.saturating_sub(paid_interest_usd);
    trade.volume_usd = trade.volume_usd + size_usd;
    trade.open_interest_usd = trade.open_interest_usd - size_usd;
    trade.loss_usd = trade.loss_usd + exit.loss_usd.saturating_sub(paid_interest_usd);
    trade.profit_usd = trade.profit_usd + exit.profit_usd;
}

/// Whether a position may be liquidated, from what the pool's leverage check said of it:
/// only a position past the maximum leverage may be (`MaxLeverage`); any other answer,
/// success included, is `PositionNotInLiquidationRange`.
pub fn check_liquidation(leverage_check: Result<(), AdrenaError>) -> (r: Result<(), AdrenaError>)
    ensures
        leverage_check == Err::<(), AdrenaError>(AdrenaError::MaxLeverage) ==> r == Ok::<(), AdrenaError>(()),
        leverage_check != Err::<(), AdrenaError>(AdrenaError::MaxLeverage) ==> r == Err::<(), AdrenaError>(
            AdrenaError::PositionNotInLiquidationRange,
        ),
{
    match leverage_check {
        Ok(_) => Err(AdrenaError::PositionNotInLiquidationRange),
        Err(e) => {
            if e == AdrenaError::MaxLeverage {
                Ok(())
            } else {
                Err(AdrenaError::PositionNotInLiquidationRange)
            }
        },
    }
}

/// Whether the custody can pay `close_amount` to the trader (`available`, as the pool says);
/// `CustodyAmountLimit` otherwise.
pub fn check_payout_available(available: bool) -> (r: Result<(), AdrenaError>)
    ensures
        available ==> r == Ok::<(), AdrenaError>(()),
        !available ==> r == Err::<(), AdrenaError>(AdrenaError::CustodyAmountLimit),
{
    if available {
        Ok(())
    } else {
        Err(AdrenaError::CustodyAmountLimit)
    }
}

/// Who opens a position and where: its owner, its pool, and the custody it trades in
/// (which, for a long, also holds its collateral).
#[derive(Debug, Clone, Copy, PartialEq, Eq, Structural)]
pub struct PositionAccounts {
    pub owner: Key,
    pub pool: Key,
    pub custody: Key,
}

/// The long position of `accounts.owner` opened at `open_time` for `collateral` tokens (worth
/// `collateral_usd`), of `size` tokens (worth `size_usd`), at trade price `price`: it trades
/// and is collateralized in `accounts.custody`, borrows its whole size, locks `size` tokens
/// of the custody for its payout, starts with no interest owed (from the custody's current
/// `cumulative_interest_snapshot`) and no automated order.
pub fn new_long_position(
    accounts: &PositionAccounts,
    id: u64,
    open_time: i64,
    price: u64,
    size: u64,
    size_usd: u64,
    collateral: u64,
    collateral_usd: u64,
    exit_fee_usd: u64,
    liquidation_fee_usd: u64,
    cumulative_interest_snapshot: u128,
) -> (p: Position)
    ensures
        p == (Position {
            owner: accounts.owner,
            pool: accounts.pool,
            custody: accounts.custody,
            collateral_custody: accounts.custody,
            id,
            side: Side::Long,
            open_time,
            update_time: 0,
            price,
            size_usd,
            borrow_size_usd: size_usd,
            collateral_usd,
            collateral_amount: collateral,
            locked_amount: size,
            unrealized_interest_usd: 0,
            paid_interest_usd: 0,
            cumulative_interest_snapshot,
            exit_fee_usd,
            liquidation_fee_usd,
            take_profit_is_set: false,
            take_profit_limit_price: 0,
            stop_loss_is_set: false,
            stop_loss_limit_price: 0,
            stop_loss_close_position_price: 0,
        }),
{
    Position {
        owner: accounts.owner,
        pool: accounts.pool,
        custody: accounts.custody,
        collateral_custody: accounts.custody,
        id,
        side: Side::Long,
        open_time,
        update_time: 0,
        price,
        size_usd,
        borrow_size_usd: size_usd,
        collateral_usd,
        collateral_amount: collateral,
        locked_amount: size,
        unrealized_interest_usd: 0,
        paid_interest_usd: 0,
        cumulative_interest_snapshot,
        exit_fee_usd,
        liquidation_fee_usd,
        take_profit_is_set: false,
        take_profit_limit_price: 0,
        stop_loss_is_set: false,
        stop_loss_limit_price: 0,
        stop_loss_close_position_price: 0,
    }
}

/// What a custody records of the positions opened in it: the collateral it holds for them,
/// the volume opened (which wraps around) and the open interest, in USD.
#[derive(Debug, Clone, Copy, PartialEq, Eq, Structural)]
pub struct OpenStats {
    pub collateral: u64,
    pub open_volume_usd: u64,
    pub open_interest_usd: u64,
}

/// Books the opening of a position of `size_usd` with `collateral` tokens of collateral.
pub fn record_open_stats(stats: &mut OpenStats, collateral: u64, size_usd: u64)
    requires
        old(stats).collateral + collateral <= u64::MAX,
        old(stats).open_interest_usd + size_usd <= u64::MAX,
    ensures
        *final(stats) == (OpenStats {
            collateral: (old(stats).collateral + collateral) as u64,
            open_volume_usd: wrapped_sum(old(stats).open_volume_usd, size_usd),
            open_interest_usd: (old(stats).open_interest_usd + size_usd) as u64,
        }),
{
    stats.collateral = stats.collateral + collateral;
    stats.open_volume_usd = stats.open_volume_usd.wrapping_add(size_usd);
    stats.open_interest_usd = stats.open_interest_usd + size_usd;
}

/// The custody's tokens after the exit of `closed` that pays `close_amount` to the trader:
/// its collateral leaves the custody's collateral, and its locked tokens are unlocked.
pub open spec fn assets_after_exit(assets: CustodyAssets, closed: Position, close_amount: u64) -> CustodyAssets {
    CustodyAssets {
        owned: (assets.owned + closed.collateral_amount - close_amount) as u64,
        collateral: (assets.collateral - closed.collateral_amount) as u64,
        locked: (assets.locked - closed.locked_amount) as u64,
    }
}

/// The collected fees after the exit of `closed`, priced at `exit`.
pub open spec fn fee_stats_after_exit(fees: ExitFeeStats, exit: ExitNumbers, closed: Position) -> ExitFeeStats {
    ExitFeeStats {
        exit_fees_usd: (fees.exit_fees_usd + exit.exit_fee_usd) as u64,
        borrow_fees_usd: (fees.borrow_fees_usd + saturating_diff(exit.borrow_fee_usd, closed.paid_interest_usd)) as u64,
    }
}

/// The trading statistics after the exit of `closed`, priced at `exit`.
pub open spec fn trade_stats_after_exit(trade: ExitTradeStats, exit: ExitNumbers, closed: Position) -> ExitTradeStats {
    ExitTradeStats {
        volume_usd: (trade.volume_usd + closed.size_usd) as u64,
        open_interest_usd: (trade.open_interest_usd - closed.size_usd) as u64,
        loss_usd: (trade.loss_usd + saturating_diff(exit.loss_usd, closed.paid_interest_usd)) as u64,
        profit_usd: (trade.profit_usd + exit.profit_usd) as u64,
    }
}

/// The fee of an exit that is shared: its total less the interest already paid.
pub open spec fn exit_fee_to_share(exit: ExitNumbers, closed: Position) -> u64 {
    saturating_diff(exit.total_fee_usd, closed.paid_interest_usd)
}

/// The pool's fee debts after a fee of `fee_usd` is shared, `referrer_fee_usd` of it with a
/// referrer and `lp_fee_usd` of it staying with the liquidity providers.
pub open spec fn pool_fees_after(pool: PoolFees, fee_usd: u64, referrer_fee_usd: u64, lp_fee_usd: u64) -> PoolFees {
    PoolFees {
        fees_debt_usd: (pool.fees_debt_usd + fee_usd - referrer_fee_usd - lp_fee_usd) as u64,
        referrers_fee_debt_usd: (pool.referrers_fee_debt_usd + referrer_fee_usd) as u64,
        cumulative_referrer_fee_usd: (pool.cumulative_referrer_fee_usd + referrer_fee_usd) as u64,
    }
}

/// A referrer's fees after it is given `referrer_fee_usd` (nothing changes without a
/// referrer).
pub open spec fn referrer_after(referrer: ReferrerFees, has_referrer: bool, referrer_fee_usd: u64) -> ReferrerFees {
    if has_referrer {
        ReferrerFees {
            claimable_referral_fee_usd: (referrer.claimable_referral_fee_usd + referrer_fee_usd) as u64,
            total_referral_fee_usd: (referrer.total_referral_fee_usd + referrer_fee_usd) as u64,
        }
    } else {
        referrer
    }
}

/// The exit of `closed`, priced at `exit`, fits in the accounts it writes: the custody holds
/// the collateral and can pay, no statistic overflows, and the shares of the fee (the
/// protocol's, given to a referrer where there is one, and the liquidity providers') do
/// not exceed it; the tokens locked for the position are locked in the custody.
pub open spec fn exit_fits(
    closed: Position,
    exit: ExitNumbers,
    has_referrer: bool,
    protocol_fee_usd: u64,
    lp_fee_usd: u64,
    assets: CustodyAssets,
    fees: ExitFeeStats,
    trade: ExitTradeStats,
    pool: PoolFees,
    referrer: ReferrerFees,
) -> bool {
    let fee = exit_fee_to_share(exit, closed);
    let referrer_fee: int = if has_referrer { protocol_fee_usd as int } else { 0 };
    &&& assets.collateral >= closed.collateral_amount
    &&& assets.locked >= closed.locked_amount
    &&& exit.close_amount > closed.collateral_amount ==> assets.owned >= exit.close_amount - closed.collateral_amount
    &&& exit.close_amount <= closed.collateral_amount ==> assets.owned + closed.collateral_amount - exit.close_amount <= u64::MAX
    &&& fees.exit_fees_usd + exit.exit_fee_usd <= u64::MAX
    &&& fees.borrow_fees_usd + saturating_diff(exit.borrow_fee_usd, closed.paid_interest_usd) <= u64::MAX
    &&& trade.volume_usd + closed.size_usd <= u64::MAX
    &&& trade.open_interest_usd >= closed.size_usd
    &&& trade.loss_usd + saturating_diff(exit.loss_usd, closed.paid_interest_usd) <= u64::MAX
    &&& trade.profit_usd + exit.profit_usd <= u64::MAX
    &&& referrer_fee + lp_fee_usd <= fee
    &&& pool.fees_debt_usd + fee <= u64::MAX
    &&& pool.referrers_fee_debt_usd + referrer_fee <= u64::MAX
    &&& pool.cumulative_referrer_fee_usd + referrer_fee <= u64::MAX
    &&& has_referrer ==> {
        &&& referrer.claimable_referral_fee_usd + protocol_fee_usd <= u64::MAX
        &&& referrer.total_referral_fee_usd + protocol_fee_usd <= u64::MAX
    }
}

/// What an exit pays the trader, in tokens, and gives the referrer, in USD.
#[derive(Debug, Clone, Copy, PartialEq, Eq, Structural)]
pub struct ExitSettlement {
    pub payout: u64,
    pub referrer_fee_usd: u64,
}

/// Settles the exit of `closed` (a position, or the share of one being closed), priced at
/// `exit`: the custody must be able to pay (`CustodyAmountLimit`); the trader is paid, the
/// custody's tokens and statistics book the exit, and the fee left to share is shared.
/// `protocol_fee_usd` and `lp_fee_usd` are the protocol's and the liquidity providers'
/// shares of that fee.
pub fn settle_exit(
    closed: &Position,
    exit: &ExitNumbers,
    payout_available: bool,
    has_referrer: bool,
    protocol_fee_usd: u64,
    lp_fee_usd: u64,
    assets: &mut CustodyAssets,
    fees: &mut ExitFeeStats,
    trade: &mut ExitTradeStats,
    pool: &mut PoolFees,
    referrer: &mut ReferrerFees,
) -> (r: Result<ExitSettlement, AdrenaError>)
    requires
        payout_available ==> exit_fits(*closed, *exit, has_referrer, protocol_fee_usd, lp_fee_usd, *old(assets),
            *old(fees), *old(trade), *old(pool), *old(referrer)),
    ensures
        !payout_available ==> r == Err::<ExitSettlement, AdrenaError>(AdrenaError::CustodyAmountLimit),
        r is Err ==> *final(assets) == *old(assets) && *final(fees) == *old(fees) && *final(trade) == *old(trade)
            && *final(pool) == *old(pool) && *final(referrer) == *old(referrer),
        payout_available ==> {
            let referrer_fee: u64 = if has_referrer { protocol_fee_usd } else { 0 };
            &&& r == Ok::<ExitSettlement, AdrenaError>(ExitSettlement { payout: exit.close_amount, referrer_fee_usd: referrer_fee })
            &&& *final(assets) == assets_after_exit(*old(assets), *closed, exit.close_amount)
            &&& *final(fees) == fee_stats_after_exit(*old(fees), *exit, *closed)
            &&& *final(trade) == trade_stats_after_exit(*old(trade), *exit, *closed)
            &&& *final(pool) == pool_fees_after(*old(pool), exit_fee_to_share(*exit, *closed), referrer_fee, lp_fee_usd)
            &&& *final(referrer) == referrer_after(*old(referrer), has_referrer, referrer_fee)
        },
{
    check_payout_available(payout_available)?;
    settle_position_exit(assets, closed.collateral_amount, closed.locked_amount, exit.close_amount);
    record_exit_stats(fees, trade, exit, closed.size_usd, closed.paid_interest_usd);
    let fee = fee_to_distribute(exit.total_fee_usd, closed.paid_interest_usd);
    let referrer_fee_usd = distribute_position_fee(pool, referrer, fee, has_referrer, protocol_fee_usd, lp_fee_usd);
    Ok(ExitSettlement { payout: exit.close_amount, referrer_fee_usd })
}

/// What an accepted close did: whether it closed only part of the position, and its
/// settlement.
#[derive(Debug, Clone, Copy, PartialEq, Eq, Structural)]
pub struct ClosedPosition {
    pub is_partial_close: bool,
    pub settlement: ExitSettlement,
}

/// The position left after `closed`, a share of it, is closed: each amount of the share
/// leaves the position's.
pub open spec fn position_after_partial_close(position: Position, closed: Position) -> Position {
    Position {
        size_usd: (position.size_usd - closed.size_usd) as u64,
        borrow_size_usd: (position.borrow_size_usd - closed.borrow_size_usd) as u64,
        collateral_usd: (position.collateral_usd - closed.collateral_usd) as u64,
        collateral_amount: (position.collateral_amount - closed.collateral_amount) as u64,
        locked_amount: (position.locked_amount - closed.locked_amount) as u64,
        unrealized_interest_usd: (position.unrealized_interest_usd - closed.unrealized_interest_usd) as u64,
        paid_interest_usd: (position.paid_interest_usd - closed.paid_interest_usd) as u64,
        exit_fee_usd: (position.exit_fee_usd - closed.exit_fee_usd) as u64,
        liquidation_fee_usd: (position.liquidation_fee_usd - closed.liquidation_fee_usd) as u64,
        ..position
    }
}

/// A share of a position holds no more of any amount than the position.
pub open spec fn share_of(closed: Position, position: Position) -> bool {
    &&& closed.size_usd <= position.size_usd
    &&& closed.borrow_size_usd <= position.borrow_size_usd
    &&& closed.collateral_usd <= position.collateral_usd
    &&& closed.collateral_amount <= position.collateral_amount
    &&& closed.locked_amount <= position.locked_amount
    &&& closed.unrealized_interest_usd <= position.unrealized_interest_usd
    &&& closed.paid_interest_usd <= position.paid_interest_usd
    &&& closed.exit_fee_usd <= position.exit_fee_usd
    &&& closed.liquidation_fee_usd <= position.liquidation_fee_usd
}

/// The record of a deleted position: no owner, no accounts, no side, and every amount zero.
pub open spec fn deleted_position() -> Position {
    Position {
        owner: Key::default_spec(),
        pool: Key::default_spec(),
        custody: Key::default_spec(),
        collateral_custody: Key::default_spec(),
        id: 0,
        side: Side::Unset,
        open_time: 0,
        update_time: 0,
        price: 0,
        size_usd: 0,
        borrow_size_usd: 0,
        collateral_usd: 0,
        collateral_amount: 0,
        locked_amount: 0,
        unrealized_interest_usd: 0,
        paid_interest_usd: 0,
        cumulative_interest_snapshot: 0,
        exit_fee_usd: 0,
        liquidation_fee_usd: 0,
        take_profit_is_set: false,
        take_profit_limit_price: 0,
        stop_loss_is_set: false,
        stop_loss_limit_price: 0,
        stop_loss_close_position_price: 0,
    }
}

/// The record of a deleted position.
pub fn delete_position(position: &mut Position)
    ensures
        *final(position) == deleted_position(),
{
    *position = Position {
        owner: Key::default_key(),
        pool: Key::default_key(),
        custody: Key::default_key(),
        collateral_custody: Key::default_key(),
        id: 0,
        side: Side::Unset,
        open_time: 0,
        update_time: 0,
        price: 0,
        size_usd: 0,
        borrow_size_usd: 0,
        collateral_usd: 0,
        collateral_amount: 0,
        locked_amount: 0,
        unrealized_interest_usd: 0,
        paid_interest_usd: 0,
        cumulative_interest_snapshot: 0,
        exit_fee_usd: 0,
        liquidation_fee_usd: 0,
        take_profit_is_set: false,
        take_profit_limit_price: 0,
        stop_loss_is_set: false,
        stop_loss_limit_price: 0,
        stop_loss_close_position_price: 0,
    };
}

/// Closes (part of) a short position at trade price `exit_price`: checks the request (see
/// `close_request_error`); checks that the custody can pay (`CustodyAmountLimit`); refuses a
/// partial close that would leave the position with collateral worth less than
/// `min_collateral_usd` (`InsufficientCollateral`); then settles the exit of `closed`, the
/// share of the position being closed (the position scaled down to `params.percentage`, the
/// whole position for a whole close), priced at `exit` (see `settle_exit`), and removes that
/// share from the position, or deletes the position where the close is whole. An error
/// leaves every account unchanged.
pub fn close_position_short(
    position: &mut Position,
    params: &ClosePositionShortParams,
    triggers: &CloseTriggers,
    referral: &Referral,
    current_time: i64,
    min_open_seconds: i64,
    exit_price: u64,
    min_collateral_usd: u64,
    closed: &Position,
    exit: &ExitNumbers,
    payout_available: bool,
    protocol_fee_usd: u64,
    lp_fee_usd: u64,
    collateral_assets: &mut CustodyAssets,
    collateral_fees: &mut ExitFeeStats,
    trade: &mut ExitTradeStats,
    pool: &mut PoolFees,
    referrer: &mut ReferrerFees,
) -> (r: Result<ClosedPosition, AdrenaError>)
    requires
        i64::MIN <= old(position).open_time + min_open_seconds <= i64::MAX,
        params.percentage == BPS_POWER * 100 ==> *closed == *old(position),
        close_request_error(*old(position), *params, *triggers, *referral, current_time, min_open_seconds, exit_price) is None
            && payout_available ==> {
            &&& share_of(*closed, *old(position))
            &&& exit_fits(*closed, *exit, referral_shares_fee(*referral), protocol_fee_usd, lp_fee_usd,
                *old(collateral_assets), *old(collateral_fees), *old(trade), *old(pool), *old(referrer))
        },
    ensures
        ({
            let err = close_request_error(*old(position), *params, *triggers, *referral, current_time, min_open_seconds, exit_price);
            let has_referrer = referral_shares_fee(*referral);
            let referrer_fee: u64 = if has_referrer { protocol_fee_usd } else { 0 };
            let partial = params.percentage < BPS_POWER * 100;
            let too_small = partial && old(position).collateral_usd - closed.collateral_usd < min_collateral_usd;
            &&& err matches Some(e) ==> r == Err::<ClosedPosition, AdrenaError>(e)
            &&& err is None && !payout_available ==> r == Err::<ClosedPosition, AdrenaError>(AdrenaError::CustodyAmountLimit)
            &&& err is None && payout_available && too_small ==> r == Err::<ClosedPosition, AdrenaError>(
                AdrenaError::InsufficientCollateral,
            )
            &&& r is Err ==> {
                &&& *final(position) == *old(position)
                &&& *final(collateral_assets) == *old(collateral_assets)
                &&& *final(collateral_fees) == *old(collateral_fees)
                &&& *final(trade) == *old(trade)
                &&& *final(pool) == *old(pool)
                &&& *final(referrer) == *old(referrer)
            }
            &&& err is None && payout_available && !too_small ==> {
                &&& r == Ok::<ClosedPosition, AdrenaError>(ClosedPosition {
                    is_partial_close: partial,
                    settlement: ExitSettlement { payout: exit.close_amount, referrer_fee_usd: referrer_fee },
                })
                &&& partial ==> *final(position) == position_after_partial_close(*old(position), *closed)
                &&& !partial ==> *final(position) == deleted_position()
                &&& *final(collateral_assets) == assets_after_exit(*old(collateral_assets), *closed, exit.close_amount)
                &&& *final(collateral_fees) == fee_stats_after_exit(*old(collateral_fees), *exit, *closed)
                &&& *final(trade) == trade_stats_after_exit(*old(trade), *exit, *closed)
                &&& *final(pool) == pool_fees_after(*old(pool), exit_fee_to_share(*exit, *closed), referrer_fee, lp_fee_usd)
                &&& *final(referrer) == referrer_after(*old(referrer), has_referrer, referrer_fee)
            }
        }),
{
    let (is_partial_close, has_referrer) = check_close_request(
        position,
        params,
        triggers,
        referral,
        current_time,
        min_open_seconds,
        exit_price,
    )?;
    check_payout_available(payout_available)?;
    if is_partial_close && position.collateral_usd - closed.collateral_usd < min_collateral_usd {
        return Err(AdrenaError::InsufficientCollateral);
    }
    let settlement = settle_exit(
        closed,
        exit,
        payout_available,
        has_referrer,
        protocol_fee_usd,
        lp_fee_usd,
        collateral_assets,
        collateral_fees,
        trade,
        pool,
        referrer,
    )?;
    if is_partial_close {
        position.size_usd = position.size_usd - closed.size_usd;
        position.borrow_size_usd = position.borrow_size_usd - closed.borrow_size_usd;
        position.collateral_usd = position.collateral_usd - closed.collateral_usd;
        position.collateral_amount = position.collateral_amount - closed.collateral_amount;
        position.locked_amount = position.locked_amount - closed.locked_amount;
        position.unrealized_interest_usd = position.unrealized_interest_usd - closed.unrealized_interest_usd;
        position.paid_interest_usd = position.paid_interest_usd - closed.paid_interest_usd;
        position.exit_fee_usd = position.exit_fee_usd - closed.exit_fee_usd;
        position.liquidation_fee_usd = position.liquidation_fee_usd - closed.liquidation_fee_usd;
    } else {
        delete_position(position);
    }
    Ok(ClosedPosition { is_partial_close, settlement })
}

/// Liquidates a long position: the referral must pass its check; only a position that the
/// pool's leverage check refused for exceeding the maximum leverage may be liquidated (see
/// `check_liquidation`); the exit, priced at `exit`, is then settled (see `settle_exit`) in
/// the position's custody, and the position is deleted. An error leaves every account
/// unchanged.
pub fn liquidate_long(
    position: &mut Position,
    referral: &Referral,
    leverage_check: Result<(), AdrenaError>,
    exit: &ExitNumbers,
    payout_available: bool,
    protocol_fee_usd: u64,
    lp_fee_usd: u64,
    assets: &mut CustodyAssets,
    fees: &mut ExitFeeStats,
    trade: &mut ExitTradeStats,
    pool: &mut PoolFees,
    referrer: &mut ReferrerFees,
) -> (r: Result<ExitSettlement, AdrenaError>)
    requires
        referral_error(*referral) is None && leverage_check == Err::<(), AdrenaError>(AdrenaError::MaxLeverage)
            && payout_available ==> exit_fits(*old(position), *exit, referral_shares_fee(*referral), protocol_fee_usd,
            lp_fee_usd, *old(assets), *old(fees), *old(trade), *old(pool), *old(referrer)),
    ensures
        ({
            let has_referrer = referral_shares_fee(*referral);
            let referrer_fee: u64 = if has_referrer { protocol_fee_usd } else { 0 };
            let liquidable = leverage_check == Err::<(), AdrenaError>(AdrenaError::MaxLeverage);
            &&& referral_error(*referral) matches Some(e) ==> r == Err::<ExitSettlement, AdrenaError>(e)
            &&& referral_error(*referral) is None && !liquidable ==> r == Err::<ExitSettlement, AdrenaError>(
                AdrenaError::PositionNotInLiquidationRange,
            )
            &&& referral_error(*referral) is None && liquidable && !payout_available ==> r == Err::<ExitSettlement, AdrenaError>(
                AdrenaError::CustodyAmountLimit,
            )
            &&& r is Err ==> {
                &&& *final(position) == *old(position)
                &&& *final(assets) == *old(assets)
                &&& *final(fees) == *old(fees)
                &&& *final(trade) == *old(trade)
                &&& *final(pool) == *old(pool)
                &&& *final(referrer) == *old(referrer)
            }
            &&& referral_error(*referral) is None && liquidable && payout_available ==> {
                &&& *final(position) == deleted_position()
                &&& r == Ok::<ExitSettlement, AdrenaError>(ExitSettlement { payout: exit.close_amount, referrer_fee_usd: referrer_fee })
                &&& *final(assets) == assets_after_exit(*old(assets), *old(position), exit.close_amount)
                &&& *final(fees) == fee_stats_after_exit(*old(fees), *exit, *old(position))
                &&& *final(trade) == trade_stats_after_exit(*old(trade), *exit, *old(position))
                &&& *final(pool) == pool_fees_after(*old(pool), exit_fee_to_share(*exit, *old(position)), referrer_fee, lp_fee_usd)
                &&& *final(referrer) == referrer_after(*old(referrer), has_referrer, referrer_fee)
            }
        }),
{
    let has_referrer = resolve_referrer(referral.profile_referrer, referral.referrer_account)?;
    check_liquidation(leverage_check)?;
    let exiting = *position;
    let settlement = settle_exit(&exiting, exit, payout_available, has_referrer, protocol_fee_usd, lp_fee_usd, assets, fees, trade, pool, referrer)?;
    delete_position(position);
    Ok(settlement)
}

/// The prices of a new position, as the oracle and the pool's fee schedule give them for its
/// size: its size in USD, its estimated exit and liquidation fees, and the custody's
/// cumulative interest at the opening.
#[derive(Debug, Clone, Copy, PartialEq, Eq, Structural)]
pub struct NewPositionPricing {
    pub size_usd: u64,
    pub exit_fee_usd: u64,
    pub liquidation_fee_usd: u64,
    pub cumulative_interest_snapshot: u128,
}

/// Opens a long position with identifier `id` at `current_time` and trade price
/// `trade_price`: checks and sizes it (see `open_position_long_error`), builds it (see
/// `new_long_position`) from its prices `pricing`, refuses it where the pool's leverage
/// check of the built position (`leverage_check`) fails, with that check's error, and books
/// it in the custody (see `record_open_stats`). Returns the new position; the caller locks its
/// size in the custody and moves the collateral. An error leaves `stats` unchanged.
pub fn open_position_long(
    trade_allowed: bool,
    params: &OpenPositionLongParams,
    custody_is_stable: bool,
    caller: &OpenPositionCaller,
    accounts: &PositionAccounts,
    trade_price: u64,
    collateral_usd: u64,
    min_collateral_usd: u64,
    pricing: &NewPositionPricing,
    leverage_check: Result<(), AdrenaError>,
    id: u64,
    current_time: i64,
    stats: &mut OpenStats,
) -> (r: Result<Position, AdrenaError>)
    requires
        open_position_long_error(trade_allowed, *params, custody_is_stable, *caller, trade_price, collateral_usd,
            min_collateral_usd) is None ==> {
            &&& old(stats).collateral + params.collateral <= u64::MAX
            &&& old(stats).open_interest_usd + pricing.size_usd <= u64::MAX
        },
    ensures
        ({
            let err = open_position_long_error(trade_allowed, *params, custody_is_stable, *caller, trade_price,
                collateral_usd, min_collateral_usd);
            let size = bps_mul_value(params.collateral as nat, params.leverage as nat) as u64;
            &&& err matches Some(e) ==> r == Err::<Position, AdrenaError>(e)
            &&& err is None && leverage_check is Err ==> r == Err::<Position, AdrenaError>(leverage_check->Err_0)
            &&& r is Err ==> *final(stats) == *old(stats)
            &&& err is None && leverage_check is Ok ==> {
                &&& r == Ok::<Position, AdrenaError>(Position {
                    owner: accounts.owner,
                    pool: accounts.pool,
                    custody: accounts.custody,
                    collateral_custody: accounts.custody,
                    id,
                    side: Side::Long,
                    open_time: current_time,
                    update_time: 0,
                    price: trade_price,
                    size_usd: pricing.size_usd,
                    borrow_size_usd: pricing.size_usd,
                    collateral_usd,
                    collateral_amount: params.collateral,
                    locked_amount: size,
                    unrealized_interest_usd: 0,
                    paid_interest_usd: 0,
                    cumulative_interest_snapshot: pricing.cumulative_interest_snapshot,
                    exit_fee_usd: pricing.exit_fee_usd,
                    liquidation_fee_usd: pricing.liquidation_fee_usd,
                    take_profit_is_set: false,
                    take_profit_limit_price: 0,
                    stop_loss_is_set: false,
                    stop_loss_limit_price: 0,
                    stop_loss_close_position_price: 0,
                })
                &&& *final(stats) == (OpenStats {
                    collateral: (old(stats).collateral + params.collateral) as u64,
                    open_volume_usd: wrapped_sum(old(stats).open_volume_usd, pricing.size_usd),
                    open_interest_usd: (old(stats).open_interest_usd + pricing.size_usd) as u64,
                })
            }
        }),
{
    let size = open_position_long_size(
        trade_allowed,
        params,
        custody_is_stable,
        caller,
        trade_price,
        collateral_usd,
        min_collateral_usd,
    )?;
    let position = new_long_position(
        accounts,
        id,
        current_time,
        trade_price,
        size,
        pricing.size_usd,
        params.collateral,
        collateral_usd,
        pricing.exit_fee_usd,
        pricing.liquidation_fee_usd,
        pricing.cumulative_interest_snapshot,
    );
    leverage_check?;
    record_open_stats(stats, params.collateral, pricing.size_usd);
    Ok(position)
}

} // verus!
