use lib::error::AdrenaError;
use lib::key::Key;
use lib::liquidity::PoolValuation;
use lib::valuation::{
    custody_info_snapshot, get_assets_under_management, get_pool_info_snapshot, net_pnl_usd,
    short_stable_locked_usd, CustodyFigures, CustodyValuation, PnlUsd, StableLockedAmount,
};

fn stable(assets: u64, long_interest: u64, short_interest: u64) -> CustodyValuation {
    CustodyValuation {
        is_stable: true,
        assets_value_usd: assets,
        long_interest_usd: long_interest,
        short_interest_usd: short_interest,
        long_pnl: PnlUsd { profit_usd: 999, loss_usd: 999 },
        short_pnl: PnlUsd { profit_usd: 999, loss_usd: 999 },
        collateral_usd: 999,
        recorded_collateral_usd: 0,
    }
}

fn volatile(assets: u64, long_pnl: PnlUsd, short_pnl: PnlUsd, collateral: u64, recorded: u64) -> CustodyValuation {
    CustodyValuation {
        is_stable: false,
        assets_value_usd: assets,
        long_interest_usd: 999,
        short_interest_usd: 999,
        long_pnl,
        short_pnl,
        collateral_usd: collateral,
        recorded_collateral_usd: recorded,
    }
}

#[test]
fn pool_value_sums_the_custodies() {
    let custodies = vec![
        stable(1_000, 10, 5),
        // The pool gained 20 on collateral; traders lose 30 long and win 50 short.
        volatile(2_000, PnlUsd { profit_usd: 0, loss_usd: 30 }, PnlUsd { profit_usd: 50, loss_usd: 0 }, 120, 100),
        // The pool lost 40 on collateral.
        volatile(500, PnlUsd { profit_usd: 10, loss_usd: 0 }, PnlUsd { profit_usd: 0, loss_usd: 0 }, 60, 100),
    ];
    // 1_015 + 2_050 - 50 + 500 - 50.
    assert_eq!(get_assets_under_management(&custodies), Ok(3_465));
    assert_eq!(get_assets_under_management(&vec![]), Ok(0));
}

#[test]
fn pool_value_never_below_zero() {
    let custodies = vec![volatile(10, PnlUsd { profit_usd: 500, loss_usd: 0 }, PnlUsd { profit_usd: 0, loss_usd: 0 }, 0, 0)];
    assert_eq!(get_assets_under_management(&custodies), Ok(0));
}

#[test]
fn pool_value_overflow() {
    let custodies = vec![stable(u64::MAX, 1, 0)];
    assert_eq!(get_assets_under_management(&custodies), Err(AdrenaError::MathOverflow));
}

#[test]
fn net_pnl() {
    assert_eq!(net_pnl_usd(&PnlUsd { profit_usd: 10, loss_usd: 25 }), Ok(-15));
    assert_eq!(net_pnl_usd(&PnlUsd { profit_usd: 40, loss_usd: 0 }), Ok(40));
    assert_eq!(net_pnl_usd(&PnlUsd { profit_usd: u64::MAX, loss_usd: 0 }), Err(AdrenaError::MathOverflow));
}

#[test]
fn stable_locked_by_shorts() {
    let usdc = Key { hi: 5, lo: 1 };
    let usdt = Key { hi: 5, lo: 2 };
    let other = Key { hi: 5, lo: 3 };
    let entries = vec![
        StableLockedAmount { custody: usdc, locked_amount: 10, locked_usd: 100 },
        StableLockedAmount { custody: other, locked_amount: 0, locked_usd: 7 },
        StableLockedAmount { custody: usdt, locked_amount: 5, locked_usd: 50 },
    ];
    assert_eq!(short_stable_locked_usd(&entries, &vec![usdc, usdt]), Ok(150));
    assert_eq!(short_stable_locked_usd(&entries, &vec![usdc]), Err(AdrenaError::CustodyNotFound));
}

fn figures(n: u64) -> CustodyFigures {
    CustodyFigures {
        owned: n,
        locked: n + 1,
        price: n + 2,
        price_confidence: n + 3,
        trade_price: n + 4,
        trade_price_confidence: n + 5,
        open_interest_long_usd: n + 6,
        open_interest_short_usd: n + 7,
        profit_usd: n + 8,
        loss_usd: n + 9,
        swap_fee_usd: n + 10,
        add_liquidity_fee_usd: 100,
        remove_liquidity_fee_usd: 20,
        close_position_fee_usd: n + 11,
        liquidation_fee_usd: n + 12,
        borrow_fee_usd: n + 13,
        open_position_volume_usd: 1_000,
        close_position_volume_usd: 300,
        liquidation_volume_usd: 40,
    }
}

#[test]
fn custody_snapshot_figures() {
    let v = volatile(2_000, PnlUsd { profit_usd: 0, loss_usd: 30 }, PnlUsd { profit_usd: 50, loss_usd: 0 }, 120, 100);
    let s = custody_info_snapshot(&v, &figures(0)).unwrap();
    assert_eq!(s.assets_value_usd, 2_000);
    assert_eq!((s.long_pnl, s.short_pnl), (-30, 50));
    assert_eq!((s.owned, s.locked, s.price, s.trade_price_confidence), (0, 1, 2, 5));
    assert_eq!((s.cumulative_profit_usd, s.cumulative_loss_usd, s.cumulative_borrow_fee_usd), (8, 9, 13));
    assert_eq!(s.cumulative_liquidity_fee_usd, 120);
    assert_eq!(s.cumulative_trading_volume_usd, 1_340);
    // A stablecoin custody reports no trader result.
    let s = custody_info_snapshot(&stable(5, 1, 1), &figures(0)).unwrap();
    assert_eq!((s.long_pnl, s.short_pnl), (0, 0));
    let huge = volatile(0, PnlUsd { profit_usd: u64::MAX, loss_usd: 0 }, PnlUsd { profit_usd: 0, loss_usd: 0 }, 0, 0);
    assert_eq!(custody_info_snapshot(&huge, &figures(0)).map(|s| s.long_pnl), Err(AdrenaError::MathOverflow));
}

#[test]
fn snapshot_records_the_valuation() {
    let mut v = PoolValuation { aum_usd: 0, lp_token_price_usd: 0, last_aum_and_lp_token_price_usd_update: 0 };
    let custodies = vec![stable(1_000_000_000, 0, 0)];
    let s = get_pool_info_snapshot(&mut v, &custodies, &vec![figures(7)], 500_000_000, 42, 1_700_000_000).unwrap();
    assert_eq!((s.current_time, s.aum_usd, s.lp_token_price), (1_700_000_000, 1_000_000_000, 20_000_000_000));
    assert_eq!((s.lp_circulating_supply, s.cumulative_referrer_fee_usd), (500_000_000, 42));
    assert_eq!(s.custodies_info_snapshot.len(), 1);
    assert_eq!(s.custodies_info_snapshot[0].owned, 7);
    assert_eq!(v, PoolValuation { aum_usd: 1_000_000_000, lp_token_price_usd: 20_000_000_000, last_aum_and_lp_token_price_usd_update: 1_700_000_000 });
    assert_eq!(
        get_pool_info_snapshot(&mut v, &custodies, &vec![figures(7)], 500_000_000, 42, -1).map(|s| s.aum_usd),
        Err(AdrenaError::MathOverflow)
    );
    assert_eq!(get_pool_info_snapshot(&mut v, &vec![], &vec![], 0, 0, 5).map(|s| s.lp_token_price), Ok(0));
}
