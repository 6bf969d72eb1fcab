use vstd::prelude::*;

use crate::error::AdrenaError;
use crate::key::Key;
use crate::position::PoolFees;
use crate::math::{
    checked_as_u64, checked_decimal_div, decimal_div_value, wrapped_sum, LP_DECIMALS,
    PRICE_DECIMALS, USD_DECIMALS,
};

verus! {

/// The LP tokens minted for a deposit worth `token_amount_usd` into a pool worth
/// `pool_amount_usd` (the deposit included) whose LP supply is `lp_supply`, the liquidity
/// providers' share of the deposit fee being worth `lp_fee_usd`: the deposit's share of the
/// pool, or its USD value for an empty pool.
pub open spec fn lp_amount_for_deposit(
    token_amount_usd: u64,
    lp_supply: u64,
    pool_amount_usd: u128,
    lp_fee_usd: u64,
) -> nat {
    if pool_amount_usd == 0 {
        token_amount_usd as nat
    } else {
        ((token_amount_usd * lp_supply) / (pool_amount_usd + lp_fee_usd)) as nat
    }
}

/// The LP tokens minted for a deposit; `MathOverflow` where they do not fit in a `u64`.
pub fn compute_lp_amount(
    token_amount_usd: u64,
    lp_supply: u64,
    pool_amount_usd: u128,
    lp_fee_usd: u64,
) -> (r: Result<u64, AdrenaError>)
    requires
        pool_amount_usd + lp_fee_usd <= u128::MAX,
    ensures
        lp_amount_for_deposit(token_amount_usd, lp_supply, pool_amount_usd, lp_fee_usd)
            <= u64::MAX ==> r == Ok::<u64, AdrenaError>(
            lp_amount_for_deposit(token_amount_usd, lp_supply, pool_amount_usd, lp_fee_usd) as u64,
        ),
        lp_amount_for_deposit(token_amount_usd, lp_supply, pool_amount_usd, lp_fee_usd)
            > u64::MAX ==> r == Err::<u64, AdrenaError>(AdrenaError::MathOverflow),
{
    if pool_amount_usd == 0 {
        Ok(token_amount_usd)
    } else {
        proof {
            assert(token_amount_usd as int * lp_supply as int <= u64::MAX as int * u64::MAX as int)
                by (nonlinear_arith)
                requires
                    0 <= token_amount_usd <= u64::MAX,
                    0 <= lp_supply <= u64::MAX,
            ;
            assert(u64::MAX as int * u64::MAX as int <= u128::MAX);
        }
        let numerator: u128 = token_amount_usd as u128 * lp_supply as u128;
        checked_as_u64(numerator / (pool_amount_usd + lp_fee_usd as u128))
    }
}

/// The USD value a withdrawal of `lp_amount_in` LP tokens takes out of a pool worth
/// `aum_usd` whose LP supply is `lp_supply`: its share of the pool, rounded down.
pub open spec fn withdrawal_amount_usd(aum_usd: u128, lp_amount_in: u64, lp_supply: u64) -> nat {
    ((aum_usd * lp_amount_in) / (lp_supply as int)) as nat
}

/// The USD value of a withdrawal; `MathOverflow` where it does not fit in a `u64`.
pub fn compute_withdrawal_amount_usd(aum_usd: u128, lp_amount_in: u64, lp_supply: u64) -> (r:
    Result<u64, AdrenaError>)
    requires
        lp_supply > 0,
        aum_usd * lp_amount_in <= u128::MAX,
    ensures
        withdrawal_amount_usd(aum_usd, lp_amount_in, lp_supply) <= u64::MAX ==> r == Ok::<
            u64,
            AdrenaError,
        >(withdrawal_amount_usd(aum_usd, lp_amount_in, lp_supply) as u64),
        withdrawal_amount_usd(aum_usd, lp_amount_in, lp_supply) > u64::MAX ==> r == Err::<
            u64,
            AdrenaError,
        >(AdrenaError::MathOverflow),
{
    proof {
        assert(aum_usd * lp_amount_in >= 0) by (nonlinear_arith)
            requires
                aum_usd >= 0,
                lp_amount_in >= 0,
        ;
    }
    let numerator: u128 = aum_usd * lp_amount_in as u128;
    checked_as_u64(numerator / lp_supply as u128)
}

/// The USD price of one LP token (with `PRICE_DECIMALS` decimals) for a pool worth `aum_usd`
/// whose LP supply is `lp_supply`; zero where no LP token exists.
pub open spec fn lp_token_price_usd(aum_usd: u64, lp_supply: u64) -> nat {
    if lp_supply == 0 {
        0
    } else {
        decimal_div_value(
            aum_usd as nat,
            -(USD_DECIMALS as int),
            lp_supply as nat,
            -(LP_DECIMALS as int),
            -(PRICE_DECIMALS as int),
        )
    }
}

/// The price of one LP token for a pool worth `aum_usd` (which must fit in a `u64`,
/// `MathOverflow` otherwise) with LP supply `lp_supply`; `MathOverflow` where the price does
/// not fit.
pub fn get_lp_token_price(aum_usd: u128, lp_supply: u64) -> (r: Result<u64, AdrenaError>)
    ensures
        aum_usd > u64::MAX ==> r == Err::<u64, AdrenaError>(AdrenaError::MathOverflow),
        aum_usd <= u64::MAX && lp_token_price_usd(aum_usd as u64, lp_supply) <= u64::MAX ==> r
            == Ok::<u64, AdrenaError>(lp_token_price_usd(aum_usd as u64, lp_supply) as u64),
        aum_usd <= u64::MAX && lp_token_price_usd(aum_usd as u64, lp_supply) > u64::MAX ==> r
            == Err::<u64, AdrenaError>(AdrenaError::MathOverflow),
{
    let aum = checked_as_u64(aum_usd)?;
    if lp_supply == 0 {
        Ok(0)
    } else {
        checked_decimal_div(
            aum,
            -(USD_DECIMALS as i32),
            lp_supply,
            -(LP_DECIMALS as i32),
            -(PRICE_DECIMALS as i32),
        )
    }
}

/// A pool's valuation as the instructions keep it.
#[derive(Debug, Clone, Copy, PartialEq, Eq, Structural)]
pub struct PoolValuation {
    pub aum_usd: u128,
    pub lp_token_price_usd: u64,
    pub last_aum_and_lp_token_price_usd_update: i64,
}

/// Records a new valuation of the pool, `aum_usd`, at `current_time`, with the LP token price
/// it gives (see `update_pool_aum`). Returns the pool's new value; an error changes nothing.
pub fn update_pool_aum(
    valuation: &mut PoolValuation,
    aum_usd: u128,
    lp_supply: u64,
    current_time: i64,
) -> (r: Result<u128, AdrenaError>)
    ensures
        r is Err ==> *final(valuation) == *old(valuation),
        aum_usd > u64::MAX && lp_supply != 0 ==> r == Err::<u128, AdrenaError>(AdrenaError::MathOverflow),
        (aum_usd <= u64::MAX || lp_supply == 0) && lp_supply != 0 && lp_token_price_usd(aum_usd as u64, lp_supply) > u64::MAX
            ==> r == Err::<u128, AdrenaError>(AdrenaError::MathOverflow),
        (lp_supply == 0 || (aum_usd <= u64::MAX && lp_token_price_usd(aum_usd as u64, lp_supply) <= u64::MAX)) ==> {
            &&& r == Ok::<u128, AdrenaError>(aum_usd)
            &&& *final(valuation) == (PoolValuation {
                aum_usd,
                lp_token_price_usd: lp_token_price_usd(aum_usd as u64, lp_supply) as u64,
                last_aum_and_lp_token_price_usd_update: current_time,
            })
        },
{
    let price = if lp_supply == 0 {
        0
    } else {
        get_lp_token_price(aum_usd, lp_supply)?
    };
    valuation.aum_usd = aum_usd;
    valuation.lp_token_price_usd = price;
    valuation.last_aum_and_lp_token_price_usd_update = current_time;
    Ok(aum_usd)
}

/// A withdrawal of LP tokens as reported by the view: the tokens paid out and the fee.
#[derive(Debug, Clone, Copy, PartialEq, Eq, Structural)]
pub struct AmountAndFee {
    pub amount: u64,
    pub fee: u64,
}

/// The deposit a quote of liquidity is asked for.
#[derive(Debug, Clone, Copy, PartialEq, Eq, Structural)]
pub struct GetAddLiquidityAmountAndFeeParams {
    pub amount_in: u64,
}

/// The withdrawal a quote of liquidity is asked for.
#[derive(Debug, Clone, Copy, PartialEq, Eq, Structural)]
pub struct GetRemoveLiquidityAmountAndFeeParams {
    pub lp_amount_in: u64,
}

/// What a deposit of `params.amount_in` tokens would mint, as the view reports it: the deposit
/// fee is `fee_amount`, the rest is worth `token_amount_usd` at the token's low price, and
/// the pool is worth `aum_usd` with LP supply `lp_supply`. `InvalidArgument` for a zero
/// deposit, `MathOverflow` where the LP amount does not fit.
pub fn get_add_liquidity_amount_and_fee(
    params: &GetAddLiquidityAmountAndFeeParams,
    fee_amount: u64,
    token_amount_usd: u64,
    aum_usd: u128,
    lp_supply: u64,
) -> (r: Result<AmountAndFee, AdrenaError>)
    ensures
        params.amount_in == 0 ==> r == Err::<AmountAndFee, AdrenaError>(AdrenaError::InvalidArgument),
        params.amount_in != 0 && lp_amount_for_deposit(token_amount_usd, lp_supply, aum_usd, 0) <= u64::MAX
            ==> r == Ok::<AmountAndFee, AdrenaError>(AmountAndFee {
            amount: lp_amount_for_deposit(token_amount_usd, lp_supply, aum_usd, 0) as u64,
            fee: fee_amount,
        }),
        params.amount_in != 0 && lp_amount_for_deposit(token_amount_usd, lp_supply, aum_usd, 0) > u64::MAX
            ==> r == Err::<AmountAndFee, AdrenaError>(AdrenaError::MathOverflow),
{
    if params.amount_in == 0 {
        return Err(AdrenaError::InvalidArgument);
    }
    let lp_amount = compute_lp_amount(token_amount_usd, lp_supply, aum_usd, 0)?;
    Ok(AmountAndFee { amount: lp_amount, fee: fee_amount })
}

/// What a withdrawal of `params.lp_amount_in` LP tokens would pay, as the view reports it: the pool
/// is worth `aum_usd` with LP supply `lp_supply`; the withdrawal's share of the pool is
/// worth `remove_amount` tokens at the token's low price, of which `fee_amount` is the fee.
/// `InvalidArgument` for a zero withdrawal.
pub fn get_remove_liquidity_amount_and_fee(
    params: &GetRemoveLiquidityAmountAndFeeParams,
    remove_amount: u64,
    fee_amount: u64,
) -> (r: Result<AmountAndFee, AdrenaError>)
    requires
        params.lp_amount_in != 0 ==> fee_amount <= remove_amount,
    ensures
        params.lp_amount_in == 0 ==> r == Err::<AmountAndFee, AdrenaError>(AdrenaError::InvalidArgument),
        params.lp_amount_in != 0 ==> r == Ok::<AmountAndFee, AdrenaError>(AmountAndFee {
            amount: (remove_amount - fee_amount) as u64,
            fee: fee_amount,
        }),
{
    if params.lp_amount_in == 0 {
        return Err(AdrenaError::InvalidArgument);
    }
    Ok(AmountAndFee { amount: remove_amount - fee_amount, fee: fee_amount })
}

/// A custody's running statistics in USD, which wrap around rather than overflow.
#[derive(Debug, Clone, Copy, PartialEq, Eq, Structural)]
pub struct CustodyStats {
    pub owned: u64,
    pub collected_fees_usd: u64,
    pub volume_usd: u64,
}

/// What a deposit of liquidity asks for.
#[derive(Debug, Clone, Copy, PartialEq, Eq, Structural)]
pub struct AddLiquidityParams {
    pub amount_in: u64,
    pub min_lp_amount_out: u64,
}

/// The prices of a deposit, as the pool's fee schedule and the oracle give them: the fee,
/// the liquidity providers' part of it, and the USD values at the token's price (`_low`:
/// its low price) of the fee, of the LP part, of the rest of the fee, of the deposit net of
/// the fee and of the whole deposit.
#[derive(Debug, Clone, Copy, PartialEq, Eq, Structural)]
pub struct AddLiquidityQuote {
    pub fee_amount: u64,
    pub lp_fee: u64,
    pub lp_fee_usd_low: u64,
    pub token_amount_usd_low: u64,
    pub amount_in_usd_low: u64,
    pub fee_usd: u64,
    pub fee_less_lp_fee_usd: u64,
}

/// The effects of an accepted deposit: the LP tokens to mint and what the pool owes as fees.
#[derive(Debug, Clone, Copy, PartialEq, Eq, Structural)]
pub struct AddLiquidityOutcome {
    pub lp_amount: u64,
    pub fees_debt_usd_increase: u64,
}

/// The error a deposit is answered with, in the order of the checks; the last is the soft
/// cap on the pool's value once the deposit is in (`aum_after_usd`).
pub open spec fn add_liquidity_error(
    params: AddLiquidityParams,
    lp_staking_mint_matches: bool,
    pool_active: bool,
    quote: AddLiquidityQuote,
    pool_amount_usd: u128,
    lp_supply: u64,
    aum_after_usd: u128,
    aum_soft_cap_usd: u64,
) -> Option<AdrenaError> {
    let lp_amount = lp_amount_for_deposit(quote.token_amount_usd_low, lp_supply, pool_amount_usd, quote.lp_fee_usd_low);
    if !lp_staking_mint_matches {
        Some(AdrenaError::InvalidAccountData)
    } else if !pool_active {
        Some(AdrenaError::InstructionNotAllowed)
    } else if params.amount_in == 0 {
        Some(AdrenaError::InvalidArgument)
    } else if params.amount_in - quote.fee_amount < 1 {
        Some(AdrenaError::InsufficientAmountReturned)
    } else if lp_amount > u64::MAX {
        Some(AdrenaError::MathOverflow)
    } else if lp_amount < params.min_lp_amount_out {
        Some(AdrenaError::MaxPriceSlippage)
    } else if aum_after_usd >= aum_soft_cap_usd {
        Some(AdrenaError::PoolAumSoftCapUsdReached)
    } else {
        None
    }
}

/// Decides a deposit of liquidity: checks it, prices the LP tokens it mints against the
/// pool's value after the deposit (`pool_amount_usd`, with LP supply `lp_supply`), and
/// books it in the custody (fees and volume wrap around; the tokens are owned by the pool).
/// `aum_after_usd` is the pool's value once the deposit is in, which must stay below its
/// soft cap. The caller moves the tokens, mints `lp_amount` LP tokens and records the pool's
/// new value (see `update_pool_aum`). An error leaves the custody unchanged.
pub fn add_liquidity(
    custody: &mut CustodyStats,
    params: &AddLiquidityParams,
    lp_staking_mint_matches: bool,
    pool_active: bool,
    quote: &AddLiquidityQuote,
    pool_amount_usd: u128,
    lp_supply: u64,
    aum_after_usd: u128,
    aum_soft_cap_usd: u64,
) -> (r: Result<AddLiquidityOutcome, AdrenaError>)
    requires
        lp_staking_mint_matches && pool_active && params.amount_in != 0 ==> quote.fee_amount <= params.amount_in,
        add_liquidity_error(*params, lp_staking_mint_matches, pool_active, *quote, pool_amount_usd, lp_supply, aum_after_usd, aum_soft_cap_usd) is None ==> {
            &&& old(custody).owned + params.amount_in <= u64::MAX
            &&& quote.lp_fee <= quote.fee_amount
        },
        lp_staking_mint_matches && pool_active && params.amount_in != 0 && params.amount_in - quote.fee_amount >= 1
            ==> pool_amount_usd + quote.lp_fee_usd_low <= u128::MAX,
    ensures
        add_liquidity_error(*params, lp_staking_mint_matches, pool_active, *quote, pool_amount_usd, lp_supply, aum_after_usd, aum_soft_cap_usd) matches Some(e)
            ==> r == Err::<AddLiquidityOutcome, AdrenaError>(e) && *final(custody) == *old(custody),
        add_liquidity_error(*params, lp_staking_mint_matches, pool_active, *quote, pool_amount_usd, lp_supply, aum_after_usd, aum_soft_cap_usd) is None ==> {
            &&& r == Ok::<AddLiquidityOutcome, AdrenaError>(AddLiquidityOutcome {
                lp_amount: lp_amount_for_deposit(quote.token_amount_usd_low, lp_supply, pool_amount_usd, quote.lp_fee_usd_low) as u64,
                fees_debt_usd_increase: quote.fee_less_lp_fee_usd,
            })
            &&& *final(custody) == (CustodyStats {
                owned: (old(custody).owned + params.amount_in) as u64,
                collected_fees_usd: wrapped_sum(old(custody).collected_fees_usd, quote.fee_usd),
                volume_usd: wrapped_sum(old(custody).volume_usd, quote.amount_in_usd_low),
            })
        },
{
    if !lp_staking_mint_matches {
        return Err(AdrenaError::InvalidAccountData);
    }
    if !pool_active {
        return Err(AdrenaError::InstructionNotAllowed);
    }
    if params.amount_in == 0 {
        return Err(AdrenaError::InvalidArgument);
    }
    let no_fee_amount = params.amount_in - quote.fee_amount;
    if no_fee_amount < 1 {
        return Err(AdrenaError::InsufficientAmountReturned);
    }
    let lp_amount = compute_lp_amount(quote.token_amount_usd_low, lp_supply, pool_amount_usd, quote.lp_fee_usd_low)?;
    if lp_amount < params.min_lp_amount_out {
        return Err(AdrenaError::MaxPriceSlippage);
    }
    check_aum_soft_cap(aum_after_usd, aum_soft_cap_usd)?;
    custody.collected_fees_usd = custody.collected_fees_usd.wrapping_add(quote.fee_usd);
    custody.volume_usd = custody.volume_usd.wrapping_add(quote.amount_in_usd_low);
    custody.owned = custody.owned + params.amount_in;
    Ok(AddLiquidityOutcome { lp_amount, fees_debt_usd_increase: quote.fee_less_lp_fee_usd })
}

/// Refuses a pool whose value reached its soft cap: `PoolAumSoftCapUsdReached` unless
/// `aum_usd` stays below `aum_soft_cap_usd`.
pub fn check_aum_soft_cap(aum_usd: u128, aum_soft_cap_usd: u64) -> (r: Result<(), AdrenaError>)
    ensures
        aum_usd < aum_soft_cap_usd ==> r == Ok::<(), AdrenaError>(()),
        aum_usd >= aum_soft_cap_usd ==> r == Err::<(), AdrenaError>(AdrenaError::PoolAumSoftCapUsdReached),
{
    if aum_usd < aum_soft_cap_usd as u128 {
        Ok(())
    } else {
        Err(AdrenaError::PoolAumSoftCapUsdReached)
    }
}

/// The least a stable custody keeps after a withdrawal: 200,000 whole tokens.
pub open spec fn stable_custody_minimum(decimals: u8) -> nat {
    200_000 * crate::math::pow10(decimals as nat)
}

/// Refuses a withdrawal that leaves a stable custody with fewer than 200,000 whole tokens
/// (`CustodyBelowMinimum`); other custodies have no minimum.
pub fn check_custody_minimum(owned: u64, decimals: u8, is_stable: bool) -> (r: Result<(), AdrenaError>)
    ensures
        !is_stable || owned >= stable_custody_minimum(decimals) ==> r == Ok::<(), AdrenaError>(()),
        is_stable && owned < stable_custody_minimum(decimals) ==> r == Err::<(), AdrenaError>(AdrenaError::CustodyBelowMinimum),
{
    if !is_stable {
        return Ok(());
    }
    match crate::math::checked_pow10(decimals as u32) {
        Err(_) => {
            proof {
                crate::math::lemma_pow10_positive(decimals as nat);
            }
            Err(AdrenaError::CustodyBelowMinimum)
        },
        Ok(scale) => {
            if scale > u128::MAX / 200_000 {
                Err(AdrenaError::CustodyBelowMinimum)
            } else if (owned as u128) < 200_000 * scale {
                Err(AdrenaError::CustodyBelowMinimum)
            } else {
                Ok(())
            }
        },
    }
}

/// What a withdrawal of liquidity asks for.
#[derive(Debug, Clone, Copy, PartialEq, Eq, Structural)]
pub struct RemoveLiquidityParams {
    pub lp_amount_in: u64,
    pub min_amount_out: u64,
}

/// The prices of a withdrawal, as the pool's fee schedule and the oracle give them: the
/// tokens its USD value buys at the token's low price, the fee taken from them, the fee's
/// USD value and the USD value of the fee net of the liquidity providers' part.
#[derive(Debug, Clone, Copy, PartialEq, Eq, Structural)]
pub struct RemoveLiquidityQuote {
    pub remove_amount: u64,
    pub fee_amount: u64,
    pub fee_usd: u64,
    pub fee_less_lp_fee_usd: u64,
}

/// The effects of an accepted withdrawal: the tokens paid out and what the pool owes as fees.
#[derive(Debug, Clone, Copy, PartialEq, Eq, Structural)]
pub struct RemoveLiquidityOutcome {
    pub transfer_amount: u64,
    pub fees_debt_usd_increase: u64,
}

/// The error a withdrawal of liquidity is answered with, in the order of the checks: a zero
/// withdrawal (`InvalidArgument`), a payout below the user's minimum (`MaxPriceSlippage`), and
/// a stable custody left with fewer than 200,000 whole tokens (`CustodyBelowMinimum`).
pub open spec fn remove_liquidity_error(
    custody: CustodyStats,
    params: RemoveLiquidityParams,
    quote: RemoveLiquidityQuote,
    is_stable: bool,
    decimals: u8,
) -> Option<AdrenaError> {
    let transfer = quote.remove_amount - quote.fee_amount;
    if params.lp_amount_in == 0 {
        Some(AdrenaError::InvalidArgument)
    } else if transfer < params.min_amount_out {
        Some(AdrenaError::MaxPriceSlippage)
    } else if is_stable && custody.owned - transfer < stable_custody_minimum(decimals) {
        Some(AdrenaError::CustodyBelowMinimum)
    } else {
        None
    }
}

/// Decides a withdrawal of liquidity worth `remove_amount_usd` (see
/// `compute_withdrawal_amount_usd`) from a custody whose token has `decimals` decimals: pays
/// out the tokens it buys net of the fee and books it in the custody (see
/// `remove_liquidity_error` for the errors). The caller moves the tokens, burns the LP tokens
/// and revalues the pool. An error leaves the custody unchanged.
pub fn remove_liquidity(
    custody: &mut CustodyStats,
    params: &RemoveLiquidityParams,
    remove_amount_usd: u64,
    quote: &RemoveLiquidityQuote,
    is_stable: bool,
    decimals: u8,
) -> (r: Result<RemoveLiquidityOutcome, AdrenaError>)
    requires
        params.lp_amount_in != 0 ==> quote.fee_amount <= quote.remove_amount,
        params.lp_amount_in != 0 && quote.remove_amount - quote.fee_amount >= params.min_amount_out
            ==> old(custody).owned >= quote.remove_amount - quote.fee_amount,
    ensures
        remove_liquidity_error(*old(custody), *params, *quote, is_stable, decimals) matches Some(e)
            ==> r == Err::<RemoveLiquidityOutcome, AdrenaError>(e) && *final(custody) == *old(custody),
        remove_liquidity_error(*old(custody), *params, *quote, is_stable, decimals) is None ==> {
            &&& r == Ok::<RemoveLiquidityOutcome, AdrenaError>(RemoveLiquidityOutcome {
                transfer_amount: (quote.remove_amount - quote.fee_amount) as u64,
                fees_debt_usd_increase: quote.fee_less_lp_fee_usd,
            })
            &&& *final(custody) == (CustodyStats {
                owned: (old(custody).owned - (quote.remove_amount - quote.fee_amount)) as u64,
                collected_fees_usd: wrapped_sum(old(custody).collected_fees_usd, quote.fee_usd),
                volume_usd: wrapped_sum(old(custody).volume_usd, remove_amount_usd),
            })
        },
{
    if params.lp_amount_in == 0 {
        return Err(AdrenaError::InvalidArgument);
    }
    let transfer_amount = quote.remove_amount - quote.fee_amount;
    if transfer_amount < params.min_amount_out {
        return Err(AdrenaError::MaxPriceSlippage);
    }
    check_custody_minimum(custody.owned - transfer_amount, decimals, is_stable)?;
    custody.collected_fees_usd = custody.collected_fees_usd.wrapping_add(quote.fee_usd);
    custody.volume_usd = custody.volume_usd.wrapping_add(remove_amount_usd);
    custody.owned = custody.owned - transfer_amount;
    Ok(RemoveLiquidityOutcome { transfer_amount, fees_debt_usd_increase: quote.fee_less_lp_fee_usd })
}

/// How a swap is priced and charged: with the oracle's plain prices (rather than its
/// cautious high and low ones) for the whitelisted swapper trading for itself, and without
/// fees for the protocol itself or the whitelisted swapper.
#[derive(Debug, Clone, Copy, PartialEq, Eq, Structural)]
pub struct SwapMode {
    pub plain_prices: bool,
    pub feeless: bool,
}

/// What a swap asks for.
#[derive(Debug, Clone, Copy, PartialEq, Eq, Structural)]
pub struct SwapParams {
    pub amount_in: u64,
    pub min_amount_out: u64,
}

/// Authorizes a swap between two custodies: swaps must be allowed by the pool and both
/// custodies (`InstructionNotAllowed`), the amount must not be zero (`InvalidArgument`), the
/// custodies must differ (`RequireKeysNeqViolated`), and only the protocol's transfer
/// authority, or the whitelisted swapper trading for itself, may swap
/// (`InstructionNotAllowed`). Returns how the swap is priced and charged.
pub fn authorize_swap(
    swap_allowed: bool,
    amount_in: u64,
    receiving_custody: Key,
    dispensing_custody: Key,
    caller: Key,
    owner: Key,
    transfer_authority: Key,
    whitelisted_swapper: Key,
) -> (r: Result<SwapMode, AdrenaError>)
    ensures
        !swap_allowed ==> r == Err::<SwapMode, AdrenaError>(AdrenaError::InstructionNotAllowed),
        swap_allowed && amount_in == 0 ==> r == Err::<SwapMode, AdrenaError>(AdrenaError::InvalidArgument),
        swap_allowed && amount_in != 0 && receiving_custody == dispensing_custody ==> r == Err::<SwapMode, AdrenaError>(
            AdrenaError::RequireKeysNeqViolated,
        ),
        swap_allowed && amount_in != 0 && receiving_custody != dispensing_custody && !(caller == transfer_authority
            || (caller == whitelisted_swapper && caller == owner)) ==> r == Err::<SwapMode, AdrenaError>(
            AdrenaError::InstructionNotAllowed,
        ),
        swap_allowed && amount_in != 0 && receiving_custody != dispensing_custody && (caller == transfer_authority
            || (caller == whitelisted_swapper && caller == owner)) ==> r == Ok::<SwapMode, AdrenaError>(SwapMode {
            plain_prices: caller == whitelisted_swapper && caller == owner,
            feeless: owner == transfer_authority || caller == whitelisted_swapper,
        }),
{
    if !swap_allowed {
        return Err(AdrenaError::InstructionNotAllowed);
    }
    if amount_in == 0 {
        return Err(AdrenaError::InvalidArgument);
    }
    if receiving_custody == dispensing_custody {
        return Err(AdrenaError::RequireKeysNeqViolated);
    }
    if !(caller == transfer_authority || (caller == whitelisted_swapper && caller == owner)) {
        return Err(AdrenaError::InstructionNotAllowed);
    }
    Ok(SwapMode {
        plain_prices: caller == whitelisted_swapper && caller == owner,
        feeless: owner == transfer_authority || caller == whitelisted_swapper,
    })
}

/// The prices of a swap, as the pool's fee schedule and the oracle give them: the fees in
/// and out (ignored for a feeless swap), the tokens the amount net of the fee in buys, and
/// the USD values booked in the two custodies.
#[derive(Debug, Clone, Copy, PartialEq, Eq, Structural)]
pub struct SwapQuote {
    pub amount_out: u64,
    pub fees_in_usd: u64,
    pub fees_out_usd: u64,
    pub amount_in_usd_low: u64,
    pub amount_out_usd_low: u64,
}

/// Settles an authorized swap: the tokens paid out are `quote.amount_out` less the fee out
/// (`InsufficientAmountReturned` where that is below the user's minimum); both custodies
/// book the swap (statistics wrap around). Returns the tokens paid out.
pub fn settle_swap(
    receiving: &mut CustodyStats,
    dispensing: &mut CustodyStats,
    params: &SwapParams,
    fees_out_amount: u64,
    quote: &SwapQuote,
) -> (r: Result<u64, AdrenaError>)
    requires
        fees_out_amount <= quote.amount_out,
        quote.amount_out - fees_out_amount >= params.min_amount_out ==> {
            &&& old(receiving).owned + params.amount_in <= u64::MAX
            &&& old(dispensing).owned >= quote.amount_out - fees_out_amount
        },
    ensures
        quote.amount_out - fees_out_amount < params.min_amount_out ==> r == Err::<u64, AdrenaError>(
            AdrenaError::InsufficientAmountReturned,
        ) && *final(receiving) == *old(receiving) && *final(dispensing) == *old(dispensing),
        quote.amount_out - fees_out_amount >= params.min_amount_out ==> {
            &&& r == Ok::<u64, AdrenaError>((quote.amount_out - fees_out_amount) as u64)
            &&& *final(receiving) == (CustodyStats {
                owned: (old(receiving).owned + params.amount_in) as u64,
                collected_fees_usd: wrapped_sum(old(receiving).collected_fees_usd, quote.fees_in_usd),
                volume_usd: wrapped_sum(old(receiving).volume_usd, quote.amount_in_usd_low),
            })
            &&& *final(dispensing) == (CustodyStats {
                owned: (old(dispensing).owned - (quote.amount_out - fees_out_amount)) as u64,
                collected_fees_usd: wrapped_sum(old(dispensing).collected_fees_usd, quote.fees_out_usd),
                volume_usd: wrapped_sum(old(dispensing).volume_usd, quote.amount_out_usd_low),
            })
        },
{
    let no_fee_amount = quote.amount_out - fees_out_amount;
    if no_fee_amount < params.min_amount_out {
        return Err(AdrenaError::InsufficientAmountReturned);
    }
    receiving.volume_usd = receiving.volume_usd.wrapping_add(quote.amount_in_usd_low);
    receiving.collected_fees_usd = receiving.collected_fees_usd.wrapping_add(quote.fees_in_usd);
    receiving.owned = receiving.owned + params.amount_in;
    dispensing.collected_fees_usd = dispensing.collected_fees_usd.wrapping_add(quote.fees_out_usd);
    dispensing.volume_usd = dispensing.volume_usd.wrapping_add(quote.amount_out_usd_low);
    dispensing.owned = dispensing.owned - no_fee_amount;
    Ok(no_fee_amount)
}

/// The fee a swap charges on one side: nothing for a feeless swap, the fee schedule's quote
/// (`quoted_fee`) otherwise.
pub fn swap_side_fee(mode: &SwapMode, quoted_fee: u64) -> (fee: u64)
    ensures
        fee == (if mode.feeless { 0 } else { quoted_fee }),
{
    if mode.feeless {
        0
    } else {
        quoted_fee
    }
}

/// Books what a swap owes stakers and the protocol: the fees in and out, in USD, net of the
/// liquidity providers' share, which stays in the pool. A feeless swap owes nothing.
pub fn record_swap_fee_debt(pool: &mut PoolFees, mode: &SwapMode, fees_in_usd_less_lp: u64, fees_out_usd_less_lp: u64)
    requires
        !mode.feeless ==> old(pool).fees_debt_usd + fees_in_usd_less_lp + fees_out_usd_less_lp <= u64::MAX,
    ensures
        mode.feeless ==> *final(pool) == *old(pool),
        !mode.feeless ==> *final(pool) == (PoolFees {
            fees_debt_usd: (old(pool).fees_debt_usd + fees_in_usd_less_lp + fees_out_usd_less_lp) as u64,
            ..*old(pool)
        }),
{
    if !mode.feeless {
        pool.fees_debt_usd = pool.fees_debt_usd + (fees_in_usd_less_lp + fees_out_usd_less_lp);
    }
}

/// Books a fee (in USD, net of the liquidity providers' share) that a deposit or a
/// withdrawal of liquidity owes stakers and the protocol.
pub fn record_fee_debt(pool: &mut PoolFees, fee_usd: u64)
    requires
        old(pool).fees_debt_usd + fee_usd <= u64::MAX,
    ensures
        *final(pool) == (PoolFees { fees_debt_usd: (old(pool).fees_debt_usd + fee_usd) as u64, ..*old(pool) }),
{
    pool.fees_debt_usd = pool.fees_debt_usd + fee_usd;
}

/// Who may swap and how a swap is priced and charged (see `authorize_swap`).
pub open spec fn swap_mode_for(caller: Key, owner: Key, transfer_authority: Key, whitelisted_swapper: Key) -> SwapMode {
    SwapMode {
        plain_prices: caller == whitelisted_swapper && caller == owner,
        feeless: owner == transfer_authority || caller == whitelisted_swapper,
    }
}

/// The error an authorization of a swap is answered with (see `authorize_swap`), if any.
pub open spec fn swap_authorization_error(
    swap_allowed: bool,
    amount_in: u64,
    receiving_custody: Key,
    dispensing_custody: Key,
    caller: Key,
    owner: Key,
    transfer_authority: Key,
    whitelisted_swapper: Key,
) -> Option<AdrenaError> {
    if !swap_allowed {
        Some(AdrenaError::InstructionNotAllowed)
    } else if amount_in == 0 {
        Some(AdrenaError::InvalidArgument)
    } else if receiving_custody == dispensing_custody {
        Some(AdrenaError::RequireKeysNeqViolated)
    } else if !(caller == transfer_authority || (caller == whitelisted_swapper && caller == owner)) {
        Some(AdrenaError::InstructionNotAllowed)
    } else {
        None
    }
}

/// The parties to a swap: the custodies it takes from and gives to, the caller and the
/// owner, and the protocol's transfer authority and the pool's whitelisted swapper.
#[derive(Debug, Clone, Copy, PartialEq, Eq, Structural)]
pub struct SwapParties {
    pub receiving_custody: Key,
    pub dispensing_custody: Key,
    pub caller: Key,
    pub owner: Key,
    pub transfer_authority: Key,
    pub whitelisted_swapper: Key,
}

/// A custody's statistics after a swap books `amount` more (or, with `received` false, fewer)
/// of its tokens, `fee_usd` of fees and `volume_usd` of volume.
pub open spec fn stats_after_swap(stats: CustodyStats, received: bool, amount: u64, fee_usd: u64, volume_usd: u64) -> CustodyStats {
    CustodyStats {
        owned: (if received { stats.owned + amount } else { stats.owned - amount }) as u64,
        collected_fees_usd: wrapped_sum(stats.collected_fees_usd, fee_usd),
        volume_usd: wrapped_sum(stats.volume_usd, volume_usd),
    }
}

/// Swaps `params.amount_in` tokens of the receiving custody for tokens of the dispensing one:
/// authorizes it (see `authorize_swap`); charges the fee schedule's fees (`quoted_fee_out`
/// tokens out, and the quote's fee values) unless the swap is feeless; pays out
/// `quote.amount_out` less the fee out where that meets the user's minimum
/// (`InsufficientAmountReturned` otherwise); books it in both custodies; and, unless the
/// swap is feeless, adds the fees net of the liquidity providers' share
/// (`fee_debt_in_usd`, `fee_debt_out_usd`) to what the pool owes. Returns the tokens paid
/// out. An error changes nothing.
pub fn swap(
    swap_allowed: bool,
    params: &SwapParams,
    parties: &SwapParties,
    quote: &SwapQuote,
    quoted_fee_out: u64,
    fee_debt_in_usd: u64,
    fee_debt_out_usd: u64,
    receiving: &mut CustodyStats,
    dispensing: &mut CustodyStats,
    pool: &mut PoolFees,
) -> (r: Result<u64, AdrenaError>)
    requires
        ({
            let mode = swap_mode_for(parties.caller, parties.owner, parties.transfer_authority, parties.whitelisted_swapper);
            let fee_out: int = if mode.feeless { 0 } else { quoted_fee_out as int };
            swap_authorization_error(swap_allowed, params.amount_in, parties.receiving_custody, parties.dispensing_custody,
                parties.caller, parties.owner, parties.transfer_authority, parties.whitelisted_swapper) is None ==> {
                &&& fee_out <= quote.amount_out
                &&& quote.amount_out - fee_out >= params.min_amount_out ==> {
                    &&& old(receiving).owned + params.amount_in <= u64::MAX
                    &&& old(dispensing).owned >= quote.amount_out - fee_out
                    &&& !mode.feeless ==> old(pool).fees_debt_usd + fee_debt_in_usd + fee_debt_out_usd <= u64::MAX
                }
            }
        }),
    ensures
        ({
            let err = swap_authorization_error(swap_allowed, params.amount_in, parties.receiving_custody,
                parties.dispensing_custody, parties.caller, parties.owner, parties.transfer_authority, parties.whitelisted_swapper);
            let mode = swap_mode_for(parties.caller, parties.owner, parties.transfer_authority, parties.whitelisted_swapper);
            let fee_out: int = if mode.feeless { 0 } else { quoted_fee_out as int };
            let paid = quote.amount_out - fee_out;
            &&& err matches Some(e) ==> r == Err::<u64, AdrenaError>(e)
            &&& err is None && paid < params.min_amount_out ==> r == Err::<u64, AdrenaError>(AdrenaError::InsufficientAmountReturned)
            &&& r is Err ==> *final(receiving) == *old(receiving) && *final(dispensing) == *old(dispensing)
                && *final(pool) == *old(pool)
            &&& err is None && paid >= params.min_amount_out ==> {
                &&& r == Ok::<u64, AdrenaError>(paid as u64)
                &&& *final(receiving) == stats_after_swap(*old(receiving), true, params.amount_in,
                    if mode.feeless { 0 } else { quote.fees_in_usd }, quote.amount_in_usd_low)
                &&& *final(dispensing) == stats_after_swap(*old(dispensing), false, paid as u64,
                    if mode.feeless { 0 } else { quote.fees_out_usd }, quote.amount_out_usd_low)
                &&& mode.feeless ==> *final(pool) == *old(pool)
                &&& !mode.feeless ==> *final(pool) == (PoolFees {
                    fees_debt_usd: (old(pool).fees_debt_usd + fee_debt_in_usd + fee_debt_out_usd) as u64,
                    ..*old(pool)
                })
            }
        }),
{
    let mode = authorize_swap(
        swap_allowed,
        params.amount_in,
        parties.receiving_custody,
        parties.dispensing_custody,
        parties.caller,
        parties.owner,
        parties.transfer_authority,
        parties.whitelisted_swapper,
    )?;
    let fees_out_amount = swap_side_fee(&mode, quoted_fee_out);
    let charged = SwapQuote {
        amount_out: quote.amount_out,
        fees_in_usd: swap_side_fee(&mode, quote.fees_in_usd),
        fees_out_usd: swap_side_fee(&mode, quote.fees_out_usd),
        amount_in_usd_low: quote.amount_in_usd_low,
        amount_out_usd_low: quote.amount_out_usd_low,
    };
    let paid = settle_swap(receiving, dispensing, params, fees_out_amount, &charged)?;
    record_swap_fee_debt(pool, &mode, fee_debt_in_usd, fee_debt_out_usd);
    Ok(paid)
}

/// A deposit does not dilute the liquidity providers: the LP tokens minted for a deposit
/// worth `token_amount_usd`, redeemed at once from the pool that the deposit joined, are
/// worth no more than the deposit.
pub proof fn lemma_deposit_does_not_dilute(
    token_amount_usd: u64,
    lp_supply: u64,
    pool_amount_usd: u128,
    lp_fee_usd: u64,
)
    requires
        pool_amount_usd + lp_fee_usd <= u128::MAX,
        pool_amount_usd + token_amount_usd <= u128::MAX,
        lp_supply + lp_amount_for_deposit(token_amount_usd, lp_supply, pool_amount_usd, lp_fee_usd) <= u64::MAX,
        lp_supply + lp_amount_for_deposit(token_amount_usd, lp_supply, pool_amount_usd, lp_fee_usd) > 0,
    ensures
        ({
            let lp = lp_amount_for_deposit(token_amount_usd, lp_supply, pool_amount_usd, lp_fee_usd);
            withdrawal_amount_usd(
                (pool_amount_usd + token_amount_usd) as u128,
                lp as u64,
                (lp_supply + lp) as u64,
            ) <= token_amount_usd
        }),
{
    let lp = lp_amount_for_deposit(token_amount_usd, lp_supply, pool_amount_usd, lp_fee_usd) as int;
    let p = pool_amount_usd as int;
    let d = token_amount_usd as int;
    let s = lp_supply as int;
    let f = lp_fee_usd as int;
    if pool_amount_usd == 0 {
        assert(lp == d);
        assert(d * lp <= d * (s + lp)) by (nonlinear_arith)
            requires
                d >= 0,
                s >= 0,
                lp >= 0,
        ;
    } else {
        assert(lp == (d * s) / (p + f));
        assert(lp * p <= d * s) by (nonlinear_arith)
            requires
                lp == (d * s) / (p + f),
                p > 0,
                f >= 0,
                d >= 0,
                s >= 0,
        {
            assert(lp * (p + f) <= d * s);
            assert(lp >= 0);
            assert(lp * p <= lp * (p + f));
        }
    }
    assert((p + d) * lp <= d * (s + lp)) by (nonlinear_arith)
        requires
            lp * p <= d * s || (p == 0 && lp == d),
            p >= 0,
            d >= 0,
            s >= 0,
            lp >= 0,
    ;
    assert(((p + d) * lp) / (s + lp) <= d) by (nonlinear_arith)
        requires
            (p + d) * lp <= d * (s + lp),
            s + lp > 0,
            d >= 0,
    ;
}

} // verus!
