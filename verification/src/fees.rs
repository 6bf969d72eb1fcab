use vstd::prelude::*;

use crate::error::AdrenaError;
use crate::liquidity::{get_lp_token_price, lp_token_price_usd, update_pool_aum, PoolValuation};
use crate::position::{PoolFees, ReferrerFees};

verus! {

/// The lowest acceptable price of the staking reward token (a dollar stablecoin), with
/// `PRICE_DECIMALS` decimals: $0.99.
pub const MIN_REWARD_TOKEN_PRICE: u64 = 9_900_000_000u64;

/// How the fees a pool owes are paid out: to the LM stakers, to the protocol, to referrers.
#[derive(Debug, Clone, Copy, PartialEq, Eq, Structural)]
pub struct FeeSplit {
    pub lm_stakers: u64,
    pub protocol: u64,
    pub referrers: u64,
}

/// What the checks before a distribution of fees say: both stakings are initialized and
/// stake the right tokens.
#[derive(Debug, Clone, Copy, PartialEq, Eq, Structural)]
pub struct DistributionAccounts {
    pub lm_staking_initialized: bool,
    pub lp_staking_initialized: bool,
    pub lp_staking_mint_matches: bool,
    pub lm_staking_mint_matches: bool,
}

/// The error a distribution of `total` owed fees is answered with, in the order of the
/// checks, or `None` where it goes ahead. `reward_token_price_low` is the reward token's low
/// price; `staking_reward_owned` and `staking_reward_locked` what its custody owns and has
/// locked.
pub open spec fn distribute_fees_error(
    accounts: DistributionAccounts,
    reward_token_price_low: u64,
    total: int,
    staking_reward_owned: u64,
    staking_reward_locked: u64,
) -> Option<AdrenaError> {
    if !accounts.lm_staking_initialized || !accounts.lp_staking_initialized {
        Some(AdrenaError::InvalidStakingState)
    } else if !accounts.lp_staking_mint_matches || !accounts.lm_staking_mint_matches {
        Some(AdrenaError::InvalidAccountData)
    } else if reward_token_price_low <= MIN_REWARD_TOKEN_PRICE {
        Some(AdrenaError::InvalidOraclePrice)
    } else if staking_reward_locked + total > staking_reward_owned {
        Some(AdrenaError::InsufficientCollateral)
    } else {
        None
    }
}

/// Pays out the fees a pool owes (to stakers and the protocol, and to referrers), from the
/// custody of the staking reward token. `lm_stakers_fee_usd` is the LM stakers' share of the
/// total and `protocol_and_referrers_fee_usd` the share of the protocol, which referrers'
/// fees are taken from; the protocol also receives what rounding left over, so that the
/// three parts make up the whole. The pool is then revalued at `current_time` (see
/// `update_pool_aum`): it is worth `aum_usd` for an LP supply of `lp_supply`; `MathOverflow`
/// where the LP token price does not fit. Nothing happens where nothing is owed (`None`), and
/// an error changes nothing. The caller transfers the three parts.
pub fn distribute_fees(
    pool: &mut PoolFees,
    staking_reward_owned: &mut u64,
    staking_reward_locked: u64,
    accounts: &DistributionAccounts,
    reward_token_price_low: u64,
    lm_stakers_fee_usd: u64,
    protocol_and_referrers_fee_usd: u64,
    valuation: &mut PoolValuation,
    aum_usd: u128,
    lp_supply: u64,
    current_time: i64,
) -> (r: Result<Option<FeeSplit>, AdrenaError>)
    requires
        old(pool).fees_debt_usd + old(pool).referrers_fee_debt_usd <= u64::MAX,
        old(pool).fees_debt_usd + old(pool).referrers_fee_debt_usd != 0
            && distribute_fees_error(*accounts, reward_token_price_low,
                old(pool).fees_debt_usd + old(pool).referrers_fee_debt_usd, *old(staking_reward_owned),
                staking_reward_locked) is None ==> {
            &&& protocol_and_referrers_fee_usd >= old(pool).referrers_fee_debt_usd
            &&& lm_stakers_fee_usd + protocol_and_referrers_fee_usd <= old(pool).fees_debt_usd + old(pool).referrers_fee_debt_usd
        },
    ensures
        ({
            let total = old(pool).fees_debt_usd + old(pool).referrers_fee_debt_usd;
            let err = distribute_fees_error(*accounts, reward_token_price_low, total, *old(staking_reward_owned), staking_reward_locked);
            let price_fits = lp_supply == 0 || (aum_usd <= u64::MAX && lp_token_price_usd(aum_usd as u64, lp_supply)
                <= u64::MAX);
            &&& total == 0 ==> r == Ok::<Option<FeeSplit>, AdrenaError>(None) && *final(pool) == *old(pool)
                && *final(staking_reward_owned) == *old(staking_reward_owned) && *final(valuation) == *old(valuation)
            &&& err matches Some(e) ==> (total != 0 ==> r == Err::<Option<FeeSplit>, AdrenaError>(e))
            &&& total != 0 && err is None && !price_fits ==> r == Err::<Option<FeeSplit>, AdrenaError>(AdrenaError::MathOverflow)
            &&& r is Err ==> *final(pool) == *old(pool) && *final(staking_reward_owned) == *old(staking_reward_owned)
                && *final(valuation) == *old(valuation)
            &&& total != 0 && err is None && price_fits ==> {
                &&& r == Ok::<Option<FeeSplit>, AdrenaError>(Some(FeeSplit {
                    lm_stakers: lm_stakers_fee_usd,
                    protocol: (total - lm_stakers_fee_usd - old(pool).referrers_fee_debt_usd) as u64,
                    referrers: old(pool).referrers_fee_debt_usd,
                }))
                &&& *final(staking_reward_owned) == *old(staking_reward_owned) - total
                &&& *final(pool) == (PoolFees { fees_debt_usd: 0, referrers_fee_debt_usd: 0, ..*old(pool) })
                &&& *final(valuation) == (PoolValuation {
                    aum_usd,
                    lp_token_price_usd: lp_token_price_usd(aum_usd as u64, lp_supply) as u64,
                    last_aum_and_lp_token_price_usd_update: current_time,
                })
            }
        }),
        r matches Ok(Some(split)) ==> split.lm_stakers + split.protocol + split.referrers
            == old(pool).fees_debt_usd + old(pool).referrers_fee_debt_usd,
{
    let total = pool.fees_debt_usd + pool.referrers_fee_debt_usd;
    if total == 0 {
        return Ok(None);
    }
    if !accounts.lm_staking_initialized || !accounts.lp_staking_initialized {
        return Err(AdrenaError::InvalidStakingState);
    }
    if !accounts.lp_staking_mint_matches || !accounts.lm_staking_mint_matches {
        return Err(AdrenaError::InvalidAccountData);
    }
    if reward_token_price_low <= MIN_REWARD_TOKEN_PRICE {
        return Err(AdrenaError::InvalidOraclePrice);
    }
    if staking_reward_locked as u128 + total as u128 > *staking_reward_owned as u128 {
        return Err(AdrenaError::InsufficientCollateral);
    }
    if lp_supply != 0 {
        get_lp_token_price(aum_usd, lp_supply)?;
    }
    let referrers = pool.referrers_fee_debt_usd;
    let mut protocol = protocol_and_referrers_fee_usd - referrers;
    protocol = protocol + (total - (lm_stakers_fee_usd + protocol + referrers));
    *staking_reward_owned = *staking_reward_owned - total;
    pool.fees_debt_usd = 0;
    pool.referrers_fee_debt_usd = 0;
    let revalued = update_pool_aum(valuation, aum_usd, lp_supply, current_time);
    proof {
        assert(revalued is Ok);
    }
    Ok(Some(FeeSplit { lm_stakers: lm_stakers_fee_usd, protocol, referrers }))
}

/// Pays a referrer all the referral fees it can claim: returns the amount to transfer (zero
/// where there is nothing to claim) and leaves nothing claimable.
pub fn claim_referral_fee(referrer: &mut ReferrerFees) -> (amount: u64)
    ensures
        amount == old(referrer).claimable_referral_fee_usd,
        *final(referrer) == (ReferrerFees { claimable_referral_fee_usd: 0, ..*old(referrer) }),
{
    let amount = referrer.claimable_referral_fee_usd;
    referrer.claimable_referral_fee_usd = 0;
    amount
}

} // verus!
