use vstd::prelude::*;

use crate::error::AdrenaError;
use crate::key::Key;
use crate::liquidity::{lp_token_price_usd, update_pool_aum, PoolValuation};
use crate::math::{checked_as_i64, checked_as_u64, checked_i64_as_u64};

verus! {

/// The unrealized profit and loss of the traders on one side of a custody, in USD.
#[derive(Debug, Clone, Copy, PartialEq, Eq, Structural)]
pub struct PnlUsd {
    pub profit_usd: u64,
    pub loss_usd: u64,
}

/// What the valuation of the pool reads of one custody, every amount in USD.
///
/// For a stablecoin custody, the interest that open positions owe the pool; for another
/// custody, the traders' unrealized profit and loss on each side and the long collateral,
/// both at the current price and as recorded when the positions were opened.
#[derive(Debug, Clone, Copy, PartialEq, Eq, Structural)]
pub struct CustodyValuation {
    pub is_stable: bool,
    /// The tokens the pool owns, at the token's low price.
    pub assets_value_usd: u64,
    pub long_interest_usd: u64,
    pub short_interest_usd: u64,
    pub long_pnl: PnlUsd,
    pub short_pnl: PnlUsd,
    /// The collateral of long positions, at the token's low price.
    pub collateral_usd: u64,
    /// The collateral of long positions, as recorded.
    pub recorded_collateral_usd: u64,
}

/// What a custody adds to the pool's value: the tokens it owns and, for a stablecoin, the
/// interest owed; for another token, what the pool gained on the long collateral and the
/// traders' unrealized losses.
pub open spec fn value_added(c: CustodyValuation) -> int {
    if c.is_stable {
        c.assets_value_usd + c.long_interest_usd + c.short_interest_usd
    } else {
        c.assets_value_usd + (if c.collateral_usd > c.recorded_collateral_usd {
            c.collateral_usd - c.recorded_collateral_usd
        } else {
            0
        }) + c.long_pnl.loss_usd + c.short_pnl.loss_usd
    }
}

/// What a custody takes from the pool's value: nothing for a stablecoin; for another token,
/// what the pool lost on the long collateral and the traders' unrealized profits.
pub open spec fn value_removed(c: CustodyValuation) -> int {
    if c.is_stable {
        0
    } else {
        (if c.recorded_collateral_usd > c.collateral_usd {
            c.recorded_collateral_usd - c.collateral_usd
        } else {
            0
        }) + c.long_pnl.profit_usd + c.short_pnl.profit_usd
    }
}

/// What the first `n` custodies add to the pool's value.
pub open spec fn total_added(custodies: Seq<CustodyValuation>, n: int) -> int
    decreases n,
{
    if n <= 0 {
        0
    } else {
        total_added(custodies, n - 1) + value_added(custodies[n - 1])
    }
}

/// What the first `n` custodies take from the pool's value.
pub open spec fn total_removed(custodies: Seq<CustodyValuation>, n: int) -> int
    decreases n,
{
    if n <= 0 {
        0
    } else {
        total_removed(custodies, n - 1) + value_removed(custodies[n - 1])
    }
}

/// The value of a pool made of `custodies`, in USD: what they add less what they take,
/// and never below zero.
pub open spec fn pool_value_usd(custodies: Seq<CustodyValuation>) -> int {
    let added = total_added(custodies, custodies.len() as int);
    let removed = total_removed(custodies, custodies.len() as int);
    if added > removed {
        added - removed
    } else {
        0
    }
}

proof fn lemma_totals_bounded(custodies: Seq<CustodyValuation>, n: int)
    requires
        0 <= n <= custodies.len(),
    ensures
        0 <= total_added(custodies, n) <= n * 5 * (u64::MAX as int),
        0 <= total_removed(custodies, n) <= n * 3 * (u64::MAX as int),
    decreases n,
{
    if n > 0 {
        lemma_totals_bounded(custodies, n - 1);
    }
}

/// The value of a pool made of `custodies`; `MathOverflow` where it does not fit in a `u64`.
pub fn get_assets_under_management(custodies: &Vec<CustodyValuation>) -> (r: Result<u64, AdrenaError>)
    requires
        custodies.len() <= u32::MAX,
    ensures
        pool_value_usd(custodies@) <= u64::MAX ==> r == Ok::<u64, AdrenaError>(
            pool_value_usd(custodies@) as u64,
        ),
        pool_value_usd(custodies@) > u64::MAX ==> r == Err::<u64, AdrenaError>(
            AdrenaError::MathOverflow,
        ),
{
    let mut added: u128 = 0;
    let mut removed: u128 = 0;
    let mut i: usize = 0;
    while i < custodies.len()
        invariant
            i <= custodies.len() <= u32::MAX,
            added == total_added(custodies@, i as int),
            removed == total_removed(custodies@, i as int),
        decreases custodies.len() - i,
    {
        proof {
            lemma_totals_bounded(custodies@, i as int + 1);
            assert((i as int + 1) * 5 * (u64::MAX as int) <= u128::MAX) by (nonlinear_arith)
                requires
                    i as int + 1 <= u32::MAX as int + 1,
            ;
            assert((i as int + 1) * 3 * (u64::MAX as int) <= u128::MAX) by (nonlinear_arith)
                requires
                    i as int + 1 <= u32::MAX as int + 1,
            ;
        }
        let c = &custodies[i];
        added = added + c.assets_value_usd as u128;
        if c.is_stable {
            added = added + c.long_interest_usd as u128;
            added = added + c.short_interest_usd as u128;
        } else {
            if c.recorded_collateral_usd < c.collateral_usd {
                added = added + (c.collateral_usd - c.recorded_collateral_usd) as u128;
            } else if c.recorded_collateral_usd > c.collateral_usd {
                removed = removed + (c.recorded_collateral_usd - c.collateral_usd) as u128;
            }
            added = added + c.long_pnl.loss_usd as u128;
            added = added + c.short_pnl.loss_usd as u128;
            removed = removed + c.long_pnl.profit_usd as u128;
            removed = removed + c.short_pnl.profit_usd as u128;
        }
        i = i + 1;
    }
    checked_as_u64(added.saturating_sub(removed))
}

/// The traders' net unrealized result on one side, as the snapshot reports it: profit less
/// loss.
pub open spec fn net_pnl(pnl: PnlUsd) -> int {
    pnl.profit_usd - pnl.loss_usd
}

/// The traders' net result on one side as an `i64`; `MathOverflow` where the profit or the
/// loss does not fit in one.
pub fn net_pnl_usd(pnl: &PnlUsd) -> (r: Result<i64, AdrenaError>)
    ensures
        pnl.profit_usd <= i64::MAX && pnl.loss_usd <= i64::MAX ==> r == Ok::<i64, AdrenaError>(
            net_pnl(*pnl) as i64,
        ),
        pnl.profit_usd > i64::MAX || pnl.loss_usd > i64::MAX ==> r == Err::<i64, AdrenaError>(
            AdrenaError::MathOverflow,
        ),
{
    let profit = checked_as_i64(pnl.profit_usd)?;
    let loss = checked_as_i64(pnl.loss_usd)?;
    Ok(profit - loss)
}

/// The stablecoin an open short locks, and how much of it.
#[derive(Debug, Clone, Copy, PartialEq, Eq, Structural)]
pub struct StableLockedAmount {
    pub custody: Key,
    pub locked_amount: u64,
    /// The amount's value at its custody's high price.
    pub locked_usd: u64,
}

/// Whether `keys` holds `k`.
pub open spec fn holds_key(keys: Seq<Key>, k: Key) -> bool {
    exists|j: int| 0 <= j < keys.len() && keys[j] == k
}

/// The value of the stablecoins locked by the first `n` entries, those that lock nothing
/// left out.
pub open spec fn stable_locked_total(entries: Seq<StableLockedAmount>, n: int) -> int
    decreases n,
{
    if n <= 0 {
        0
    } else {
        stable_locked_total(entries, n - 1) + (if entries[n - 1].locked_amount == 0 {
            0
        } else {
            entries[n - 1].locked_usd as int
        })
    }
}

/// Every entry among the first `n` that locks something names a stablecoin custody of the
/// pool.
pub open spec fn stable_entries_known(entries: Seq<StableLockedAmount>, stable_custodies: Seq<Key>, n: int) -> bool {
    forall|j: int| 0 <= j < n && entries[j].locked_amount != 0 ==> holds_key(stable_custodies, #[trigger] entries[j].custody)
}

proof fn lemma_stable_locked_total_monotone(entries: Seq<StableLockedAmount>, a: int, b: int)
    requires
        0 <= a <= b <= entries.len(),
    ensures
        0 <= stable_locked_total(entries, a) <= stable_locked_total(entries, b),
    decreases b - a,
{
    if a < b {
        lemma_stable_locked_total_monotone(entries, a, b - 1);
    } else {
        lemma_stable_locked_nonneg(entries, a);
    }
}

proof fn lemma_stable_locked_nonneg(entries: Seq<StableLockedAmount>, n: int)
    ensures
        0 <= stable_locked_total(entries, n),
    decreases n,
{
    if n > 0 {
        lemma_stable_locked_nonneg(entries, n - 1);
    }
}

/// The value of the stablecoins that the shorts of a custody lock: what the entries that
/// lock something are worth. `CustodyNotFound` where such an entry names no stablecoin
/// custody of the pool.
pub fn short_stable_locked_usd(entries: &Vec<StableLockedAmount>, stable_custodies: &Vec<Key>) -> (r:
    Result<u64, AdrenaError>)
    requires
        stable_locked_total(entries@, entries@.len() as int) <= u64::MAX,
    ensures
        stable_entries_known(entries@, stable_custodies@, entries@.len() as int) ==> r == Ok::<
            u64,
            AdrenaError,
        >(stable_locked_total(entries@, entries@.len() as int) as u64),
        !stable_entries_known(entries@, stable_custodies@, entries@.len() as int) ==> r == Err::<
            u64,
            AdrenaError,
        >(AdrenaError::CustodyNotFound),
{
    let mut total: u64 = 0;
    let mut i: usize = 0;
    while i < entries.len()
        invariant
            i <= entries.len(),
            stable_locked_total(entries@, entries@.len() as int) <= u64::MAX,
            total == stable_locked_total(entries@, i as int),
            stable_entries_known(entries@, stable_custodies@, i as int),
        decreases entries.len() - i,
    {
        let e = entries[i];
        if e.locked_amount != 0 {
            let mut found = false;
            let mut j: usize = 0;
            while j < stable_custodies.len()
                invariant
                    j <= stable_custodies.len(),
                    found ==> holds_key(stable_custodies@, e.custody),
                    !found ==> forall|k: int| 0 <= k < j ==> stable_custodies@[k] != e.custody,
                decreases stable_custodies.len() - j,
            {
                if stable_custodies[j] == e.custody {
                    found = true;
                }
                j = j + 1;
            }
            if !found {
                proof {
                    assert(!holds_key(stable_custodies@, entries@[i as int].custody));
                }
                return Err(AdrenaError::CustodyNotFound);
            }
            proof {
                lemma_stable_locked_total_monotone(entries@, i as int + 1, entries@.len() as int);
            }
            total = total + e.locked_usd;
        }
        proof {
            lemma_stable_locked_total_monotone(entries@, i as int + 1, entries@.len() as int);
            assert forall|j: int| 0 <= j < i as int + 1 && entries@[j].locked_amount != 0 implies holds_key(
                stable_custodies@,
                #[trigger] entries@[j].custody,
            ) by {
                if j < i as int {
                    assert(stable_entries_known(entries@, stable_custodies@, i as int));
                }
            }
        }
        i = i + 1;
    }
    Ok(total)
}

/// What a custody records that its snapshot reports as it stands: its tokens, the oracle's
/// prices of its token (and of what it trades), its open interest and its running
/// statistics, in USD.
#[derive(Debug, Clone, Copy, PartialEq, Eq, Structural)]
pub struct CustodyFigures {
    pub owned: u64,
    pub locked: u64,
    pub price: u64,
    pub price_confidence: u64,
    pub trade_price: u64,
    pub trade_price_confidence: u64,
    pub open_interest_long_usd: u64,
    pub open_interest_short_usd: u64,
    pub profit_usd: u64,
    pub loss_usd: u64,
    pub swap_fee_usd: u64,
    pub add_liquidity_fee_usd: u64,
    pub remove_liquidity_fee_usd: u64,
    pub close_position_fee_usd: u64,
    pub liquidation_fee_usd: u64,
    pub borrow_fee_usd: u64,
    pub open_position_volume_usd: u64,
    pub close_position_volume_usd: u64,
    pub liquidation_volume_usd: u64,
}

/// What the snapshot of a pool reports of one custody.
#[derive(Debug, Clone, Copy, PartialEq, Eq, Structural)]
pub struct CustodyInfoSnapshot {
    pub assets_value_usd: u64,
    pub owned: u64,
    pub locked: u64,
    pub price: u64,
    pub price_confidence: u64,
    pub trade_price: u64,
    pub trade_price_confidence: u64,
    pub short_pnl: i64,
    pub long_pnl: i64,
    pub open_interest_long_usd: u64,
    pub open_interest_short_usd: u64,
    pub cumulative_profit_usd: u64,
    pub cumulative_loss_usd: u64,
    pub cumulative_swap_fee_usd: u64,
    pub cumulative_liquidity_fee_usd: u64,
    pub cumulative_close_position_fee_usd: u64,
    pub cumulative_liquidation_fee_usd: u64,
    pub cumulative_borrow_fee_usd: u64,
    pub cumulative_trading_volume_usd: u64,
}

/// The traders' unrealized results of a custody fit the snapshot: a stablecoin custody
/// reports none; another one's profits and losses must each fit in an `i64`.
pub open spec fn custody_pnl_fits(v: CustodyValuation) -> bool {
    !v.is_stable ==> {
        &&& v.long_pnl.profit_usd <= i64::MAX
        &&& v.long_pnl.loss_usd <= i64::MAX
        &&& v.short_pnl.profit_usd <= i64::MAX
        &&& v.short_pnl.loss_usd <= i64::MAX
    }
}

/// The sums a custody's snapshot reports fit in a `u64`.
pub open spec fn custody_sums_fit(f: CustodyFigures) -> bool {
    &&& f.add_liquidity_fee_usd + f.remove_liquidity_fee_usd <= u64::MAX
    &&& f.close_position_volume_usd + f.liquidation_volume_usd + f.open_position_volume_usd <= u64::MAX
}

/// What the snapshot reports of a custody valued as `v` with figures `f`.
pub open spec fn custody_snapshot(v: CustodyValuation, f: CustodyFigures) -> CustodyInfoSnapshot {
    CustodyInfoSnapshot {
        assets_value_usd: v.assets_value_usd,
        owned: f.owned,
        locked: f.locked,
        price: f.price,
        price_confidence: f.price_confidence,
        trade_price: f.trade_price,
        trade_price_confidence: f.trade_price_confidence,
        short_pnl: if v.is_stable { 0 } else { net_pnl(v.short_pnl) as i64 },
        long_pnl: if v.is_stable { 0 } else { net_pnl(v.long_pnl) as i64 },
        open_interest_long_usd: f.open_interest_long_usd,
        open_interest_short_usd: f.open_interest_short_usd,
        cumulative_profit_usd: f.profit_usd,
        cumulative_loss_usd: f.loss_usd,
        cumulative_swap_fee_usd: f.swap_fee_usd,
        cumulative_liquidity_fee_usd: (f.add_liquidity_fee_usd + f.remove_liquidity_fee_usd) as u64,
        cumulative_close_position_fee_usd: f.close_position_fee_usd,
        cumulative_liquidation_fee_usd: f.liquidation_fee_usd,
        cumulative_borrow_fee_usd: f.borrow_fee_usd,
        cumulative_trading_volume_usd: (f.close_position_volume_usd + f.liquidation_volume_usd
            + f.open_position_volume_usd) as u64,
    }
}

/// The snapshot of a custody valued as `v` with figures `f` (see `custody_snapshot`);
/// `MathOverflow` where a profit or a loss does not fit in an `i64`.
pub fn custody_info_snapshot(v: &CustodyValuation, f: &CustodyFigures) -> (r: Result<CustodyInfoSnapshot, AdrenaError>)
    requires
        custody_sums_fit(*f),
    ensures
        custody_pnl_fits(*v) ==> r == Ok::<CustodyInfoSnapshot, AdrenaError>(custody_snapshot(*v, *f)),
        !custody_pnl_fits(*v) ==> r == Err::<CustodyInfoSnapshot, AdrenaError>(AdrenaError::MathOverflow),
{
    let mut short_pnl: i64 = 0;
    let mut long_pnl: i64 = 0;
    if !v.is_stable {
        short_pnl = net_pnl_usd(&v.short_pnl)?;
        long_pnl = net_pnl_usd(&v.long_pnl)?;
    }
    Ok(
        CustodyInfoSnapshot {
            assets_value_usd: v.assets_value_usd,
            owned: f.owned,
            locked: f.locked,
            price: f.price,
            price_confidence: f.price_confidence,
            trade_price: f.trade_price,
            trade_price_confidence: f.trade_price_confidence,
            short_pnl,
            long_pnl,
            open_interest_long_usd: f.open_interest_long_usd,
            open_interest_short_usd: f.open_interest_short_usd,
            cumulative_profit_usd: f.profit_usd,
            cumulative_loss_usd: f.loss_usd,
            cumulative_swap_fee_usd: f.swap_fee_usd,
            cumulative_liquidity_fee_usd: f.add_liquidity_fee_usd + f.remove_liquidity_fee_usd,
            cumulative_close_position_fee_usd: f.close_position_fee_usd,
            cumulative_liquidation_fee_usd: f.liquidation_fee_usd,
            cumulative_borrow_fee_usd: f.borrow_fee_usd,
            cumulative_trading_volume_usd: f.close_position_volume_usd + f.liquidation_volume_usd
                + f.open_position_volume_usd,
        },
    )
}

/// What the snapshot of a pool reports: the time, the pool's value and LP token price, each
/// custody, the LP supply and the referral fees paid so far.
pub struct PoolInfoSnapshot {
    pub current_time: u64,
    pub aum_usd: u64,
    pub lp_token_price: u64,
    pub custodies_info_snapshot: Vec<CustodyInfoSnapshot>,
    pub lp_circulating_supply: u64,
    pub cumulative_referrer_fee_usd: u64,
}

/// Every custody's results fit its snapshot.
pub open spec fn all_custody_pnls_fit(custodies: Seq<CustodyValuation>) -> bool {
    forall|i: int| 0 <= i < custodies.len() ==> #[trigger] custody_pnl_fits(custodies[i])
}

/// The snapshot of a pool at `current_time` can be taken: every custody's results fit, and
/// the pool's value, its LP token price and the time fit in a `u64`.
pub open spec fn pool_snapshot_fits(custodies: Seq<CustodyValuation>, lp_supply: u64, current_time: i64) -> bool {
    &&& all_custody_pnls_fit(custodies)
    &&& pool_value_usd(custodies) <= u64::MAX
    &&& lp_token_price_usd(pool_value_usd(custodies) as u64, lp_supply) <= u64::MAX
    &&& current_time >= 0
}

/// Takes the snapshot of the pool made of `custodies` (with figures `figures`, in the same
/// order) at `current_time`: values the pool, records that value and the LP token price it
/// gives in `valuation`, and reports them with each custody (see `custody_snapshot`).
/// `MathOverflow` where a custody's results, the value, the price or the time do not fit.
pub fn get_pool_info_snapshot(
    valuation: &mut PoolValuation,
    custodies: &Vec<CustodyValuation>,
    figures: &Vec<CustodyFigures>,
    lp_supply: u64,
    cumulative_referrer_fee_usd: u64,
    current_time: i64,
) -> (r: Result<PoolInfoSnapshot, AdrenaError>)
    requires
        custodies.len() <= u32::MAX,
        figures.len() == custodies.len(),
        forall|i: int| 0 <= i < figures.len() ==> #[trigger] custody_sums_fit(figures@[i]),
    ensures
        r is Ok <==> pool_snapshot_fits(custodies@, lp_supply, current_time),
        r is Err ==> r->Err_0 == AdrenaError::MathOverflow,
        r matches Ok(snapshot) ==> {
            let aum = pool_value_usd(custodies@);
            let price = lp_token_price_usd(aum as u64, lp_supply);
            &&& snapshot.current_time == current_time as u64
            &&& snapshot.aum_usd == aum
            &&& snapshot.lp_token_price == price
            &&& snapshot.lp_circulating_supply == lp_supply
            &&& snapshot.cumulative_referrer_fee_usd == cumulative_referrer_fee_usd
            &&& snapshot.custodies_info_snapshot@.len() == custodies.len()
            &&& forall|i: int| 0 <= i < custodies.len() ==> #[trigger] snapshot.custodies_info_snapshot@[i]
                == custody_snapshot(custodies@[i], figures@[i])
            &&& *final(valuation) == (PoolValuation {
                aum_usd: aum as u128,
                lp_token_price_usd: price as u64,
                last_aum_and_lp_token_price_usd_update: current_time,
            })
        },
{
    let mut infos: Vec<CustodyInfoSnapshot> = Vec::new();
    let mut i: usize = 0;
    while i < custodies.len()
        invariant
            i <= custodies.len(),
            figures.len() == custodies.len(),
            forall|k: int| 0 <= k < figures.len() ==> #[trigger] custody_sums_fit(figures@[k]),
            infos@.len() == i,
            forall|k: int| 0 <= k < i ==> #[trigger] custody_pnl_fits(custodies@[k]),
            forall|k: int| 0 <= k < i ==> #[trigger] infos@[k] == custody_snapshot(custodies@[k], figures@[k]),
        decreases custodies.len() - i,
    {
        let info = match custody_info_snapshot(&custodies[i], &figures[i]) {
            Ok(info) => info,
            Err(e) => {
                proof {
                    assert(!all_custody_pnls_fit(custodies@));
                }
                return Err(e);
            },
        };
        infos.push(info);
        i = i + 1;
    }
    proof {
        assert(all_custody_pnls_fit(custodies@));
    }
    let aum_usd = get_assets_under_management(custodies)?;
    update_pool_aum(valuation, aum_usd as u128, lp_supply, current_time)?;
    let time = checked_i64_as_u64(current_time)?;
    Ok(
        PoolInfoSnapshot {
            current_time: time,
            aum_usd,
            lp_token_price: valuation.lp_token_price_usd,
            custodies_info_snapshot: infos,
            lp_circulating_supply: lp_supply,
            cumulative_referrer_fee_usd,
        },
    )
}

} // verus!
