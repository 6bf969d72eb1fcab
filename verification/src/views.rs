use vstd::prelude::*;

use crate::error::AdrenaError;
use crate::key::Key;
use crate::math::{bps_mul_value, checked_bps_mul};
use crate::orders::{decode_side, side_from_code};
use crate::position::{Position, Side};

verus! {

/// The position an entry quote is asked for: its collateral, leverage (in basis points) and
/// side (1 for long, 2 for short).
#[derive(Debug, Clone, Copy, PartialEq, Eq, Structural)]
pub struct GetEntryPriceAndFeeParams {
    pub collateral: u64,
    pub leverage: u32,
    pub side: u8,
}

/// The side and size (in collateral tokens: the collateral times the leverage) of the
/// position an entry quote is asked for. `InvalidArgument` where the side code names no
/// side or the collateral or leverage is zero, `MathOverflow` where the size does not fit.
pub fn entry_position_size(params: &GetEntryPriceAndFeeParams) -> (r: Result<(Side, u64), AdrenaError>)
    ensures
        (side_from_code(params.side) is None || params.collateral == 0 || params.leverage == 0) ==> r == Err::<(Side, u64), AdrenaError>(
            AdrenaError::InvalidArgument,
        ),
        side_from_code(params.side) matches Some(s) ==> (params.collateral != 0 && params.leverage != 0 ==> {
            &&& bps_mul_value(params.collateral as nat, params.leverage as nat) <= u64::MAX ==> r == Ok::<(Side, u64), AdrenaError>(
                (s, bps_mul_value(params.collateral as nat, params.leverage as nat) as u64),
            )
            &&& bps_mul_value(params.collateral as nat, params.leverage as nat) > u64::MAX ==> r == Err::<(Side, u64), AdrenaError>(
                AdrenaError::MathOverflow,
            )
        }),
{
    let side: u8 = params.side;
    let collateral: u64 = params.collateral;
    let leverage: u32 = params.leverage;
    let s = match decode_side(side) {
        Some(s) => s,
        None => {
            return Err(AdrenaError::InvalidArgument);
        },
    };
    if collateral == 0 || leverage == 0 {
        return Err(AdrenaError::InvalidArgument);
    }
    let size = checked_bps_mul(collateral, leverage as u64)?;
    Ok((s, size))
}

/// What the pool's fee schedule and liquidation pricing give for the position an entry quote
/// is asked for: its estimated exit and liquidation fees (in collateral tokens) and its
/// liquidation price.
#[derive(Debug, Clone, Copy, PartialEq, Eq, Structural)]
pub struct EntryPricing {
    pub exit_fee: u64,
    pub liquidation_fee: u64,
    pub liquidation_price: u64,
}

/// An entry quote: the price the position would open at, its liquidation price, its estimated
/// exit and liquidation fees, and its size in collateral tokens.
#[derive(Debug, Clone, Copy, PartialEq, Eq, Structural)]
pub struct NewPositionPricesAndFee {
    pub entry_price: u64,
    pub liquidation_price: u64,
    pub exit_fee: u64,
    pub liquidation_fee: u64,
    pub size: u64,
}

/// Quotes the opening of a position at trade price `trade_price` (the oracle's price of the
/// traded token, which is the entry price on either side), with `pricing` the pool's fees and
/// liquidation price for it. The errors and the size are those of `entry_position_size`.
pub fn get_entry_price_and_fee(
    params: &GetEntryPriceAndFeeParams,
    trade_price: u64,
    pricing: &EntryPricing,
) -> (r: Result<NewPositionPricesAndFee, AdrenaError>)
    ensures
        (side_from_code(params.side) is None || params.collateral == 0 || params.leverage == 0) ==> r
            == Err::<NewPositionPricesAndFee, AdrenaError>(AdrenaError::InvalidArgument),
        side_from_code(params.side) is Some && params.collateral != 0 && params.leverage != 0 ==> {
            let size = bps_mul_value(params.collateral as nat, params.leverage as nat);
            &&& size > u64::MAX ==> r == Err::<NewPositionPricesAndFee, AdrenaError>(AdrenaError::MathOverflow)
            &&& size <= u64::MAX ==> r == Ok::<NewPositionPricesAndFee, AdrenaError>(NewPositionPricesAndFee {
                entry_price: trade_price,
                liquidation_price: pricing.liquidation_price,
                exit_fee: pricing.exit_fee,
                liquidation_fee: pricing.liquidation_fee,
                size: size as u64,
            })
        },
{
    let sized: (Side, u64) = entry_position_size(params)?;
    let size: u64 = sized.1;
    Ok(NewPositionPricesAndFee {
        entry_price: trade_price,
        liquidation_price: pricing.liquidation_price,
        exit_fee: pricing.exit_fee,
        liquidation_fee: pricing.liquidation_fee,
        size,
    })
}

/// The fee, in USD, a position would pay on exit: its exit fee, the interest it owes that
/// has not been settled, and the interest accrued since (`unrealized_interest_usd`).
pub fn exit_fee_usd_estimate(position: &Position, unrealized_interest_usd: u64) -> (fee: u64)
    requires
        position.exit_fee_usd + unrealized_interest_usd + position.unrealized_interest_usd <= u64::MAX,
    ensures
        fee == position.exit_fee_usd + unrealized_interest_usd + position.unrealized_interest_usd,
{
    position.exit_fee_usd + unrealized_interest_usd + position.unrealized_interest_usd
}

/// The amount a swap quote is asked for.
#[derive(Debug, Clone, Copy, PartialEq, Eq, Structural)]
pub struct GetSwapAmountAndFeesParams {
    pub amount_in: u64,
}

/// Checks a swap quote request: a non-zero amount (`InvalidArgument`) between two distinct
/// custodies (`RequireKeysNeqViolated`).
pub fn check_swap_quote(params: &GetSwapAmountAndFeesParams, receiving_custody: Key, dispensing_custody: Key) -> (r: Result<(), AdrenaError>)
    ensures
        params.amount_in == 0 ==> r == Err::<(), AdrenaError>(AdrenaError::InvalidArgument),
        params.amount_in != 0 && receiving_custody == dispensing_custody ==> r == Err::<(), AdrenaError>(
            AdrenaError::RequireKeysNeqViolated,
        ),
        params.amount_in != 0 && receiving_custody != dispensing_custody ==> r == Ok::<(), AdrenaError>(()),
{
    let amount_in: u64 = params.amount_in;
    if amount_in == 0 {
        return Err(AdrenaError::InvalidArgument);
    }
    if receiving_custody == dispensing_custody {
        return Err(AdrenaError::RequireKeysNeqViolated);
    }
    Ok(())
}

/// The position a quote of an opening with a swap is asked for: the collateral paid in,
/// the leverage (in basis points) and the side (1 for long, 2 for short).
#[derive(Debug, Clone, Copy, PartialEq, Eq, Structural)]
pub struct GetOpenPositionWithSwapAmountAndFeesParams {
    pub collateral_amount: u64,
    pub leverage: u32,
    pub side: u8,
}

/// The collateral a position opened with a swap would get, and the swap's fees in and out:
/// the swap's quote (`swap_amount_out`, `swap_fee_in`, `swap_fee_out`) where the trader pays in
/// another token than the collateral (`swap_required`), the collateral given and no fee
/// otherwise.
pub fn swap_leg(
    swap_required: bool,
    params: &GetOpenPositionWithSwapAmountAndFeesParams,
    swap_amount_out: u64,
    swap_fee_in: u64,
    swap_fee_out: u64,
) -> (r: (u64, u64, u64))
    ensures
        swap_required ==> r == (swap_amount_out, swap_fee_in, swap_fee_out),
        !swap_required ==> r == (params.collateral_amount, 0u64, 0u64),
{
    let collateral_amount: u64 = params.collateral_amount;
    if swap_required {
        (swap_amount_out, swap_fee_in, swap_fee_out)
    } else {
        (collateral_amount, 0, 0)
    }
}



/// The swap a quote of an opening with a swap makes first: the collateral it gives, and its
/// fees in and out.
#[derive(Debug, Clone, Copy, PartialEq, Eq, Structural)]
pub struct SwapQuote {
    pub amount_out: u64,
    pub fee_in: u64,
    pub fee_out: u64,
}

/// A quote of an opening with a swap: the entry quote of the position the swapped collateral
/// opens, and the swap's fees.
#[derive(Debug, Clone, Copy, PartialEq, Eq, Structural)]
pub struct OpenPositionWithSwapAmountAndFees {
    pub entry_price: u64,
    pub liquidation_price: u64,
    pub swap_fee_in: u64,
    pub swap_fee_out: u64,
    pub exit_fee: u64,
    pub liquidation_fee: u64,
    pub size: u64,
}

/// Quotes an opening with a swap: where the trader pays in another token than the collateral
/// (`swap_required`), the swap's quote (`swap`, whose error is the quote's) gives the
/// collateral and the swap fees, otherwise the collateral is `params.collateral_amount` and
/// there is no swap fee; the position is then quoted (see `get_entry_price_and_fee`) for that
/// collateral, the leverage and the side, at trade price `trade_price` with the pool's
/// `pricing`.
pub fn get_open_position_with_swap_amount_and_fees(
    params: &GetOpenPositionWithSwapAmountAndFeesParams,
    swap_required: bool,
    swap: Result<SwapQuote, AdrenaError>,
    trade_price: u64,
    pricing: &EntryPricing,
) -> (r: Result<OpenPositionWithSwapAmountAndFees, AdrenaError>)
    ensures
        swap_required && swap is Err ==> r == Err::<OpenPositionWithSwapAmountAndFees, AdrenaError>(swap->Err_0),
        !(swap_required && swap is Err) ==> {
            let (collateral, fee_in, fee_out) = if swap_required {
                (swap->Ok_0.amount_out, swap->Ok_0.fee_in, swap->Ok_0.fee_out)
            } else {
                (params.collateral_amount, 0u64, 0u64)
            };
            let size = bps_mul_value(collateral as nat, params.leverage as nat);
            &&& (side_from_code(params.side) is None || collateral == 0 || params.leverage == 0) ==> r
                == Err::<OpenPositionWithSwapAmountAndFees, AdrenaError>(AdrenaError::InvalidArgument)
            &&& side_from_code(params.side) is Some && collateral != 0 && params.leverage != 0 ==> {
                &&& size > u64::MAX ==> r == Err::<OpenPositionWithSwapAmountAndFees, AdrenaError>(AdrenaError::MathOverflow)
                &&& size <= u64::MAX ==> r == Ok::<OpenPositionWithSwapAmountAndFees, AdrenaError>(OpenPositionWithSwapAmountAndFees {
                    entry_price: trade_price,
                    liquidation_price: pricing.liquidation_price,
                    swap_fee_in: fee_in,
                    swap_fee_out: fee_out,
                    exit_fee: pricing.exit_fee,
                    liquidation_fee: pricing.liquidation_fee,
                    size: size as u64,
                })
            }
        },
{
    let quoted: SwapQuote = match swap {
        Ok(q) => q,
        Err(e) => {
            if swap_required {
                return Err(e);
            }
            SwapQuote { amount_out: 0, fee_in: 0, fee_out: 0 }
        },
    };
    let leg: (u64, u64, u64) = swap_leg(swap_required, params, quoted.amount_out, quoted.fee_in, quoted.fee_out);
    let collateral: u64 = leg.0;
    let swap_fee_in: u64 = leg.1;
    let swap_fee_out: u64 = leg.2;
    let entry = get_entry_price_and_fee(
        &GetEntryPriceAndFeeParams { collateral, leverage: params.leverage, side: params.side },
        trade_price,
        pricing,
    )?;
    Ok(OpenPositionWithSwapAmountAndFees {
        entry_price: entry.entry_price,
        liquidation_price: entry.liquidation_price,
        swap_fee_in,
        swap_fee_out,
        exit_fee: entry.exit_fee,
        liquidation_fee: entry.liquidation_fee,
        size: entry.size,
    })
}

} // verus!
