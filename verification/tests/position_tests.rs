use lib::error::AdrenaError;
use lib::key::Key;
use lib::position::{
    add_collateral_short, cancel_take_profit, check_close_request, check_liquidation,
    check_payout_available, close_position_short, distribute_position_fee, fee_to_distribute,
    liquidate_long, new_long_position, open_position_long, open_position_long_size, position_for_liquidation_price,
    record_exit_stats, record_open_stats, remove_collateral_long, resolve_position_borrow_fees,
    resolve_referrer, set_stop_loss_long, set_take_profit_long, settle_exit, settle_position_exit,
    AddCollateralShortParams, ClosePositionShortParams, CloseTriggers, ClosedPosition,
    CustodyAssets, ExitFeeStats, ExitNumbers, ExitSettlement, ExitTradeStats,
    GetLiquidationPriceParams, NewPositionPricing, OpenPositionCaller, OpenPositionLongParams, OpenStats, PoolFees,
    Position, PositionAccounts, Referral, ReferrerFees, RemoveCollateralLongParams, SetStopLossLongParams,
    SetTakeProfitLongParams, Side,
};

fn position() -> Position {
    Position {
        owner: Key { hi: 9, lo: 1 },
        pool: Key { hi: 9, lo: 2 },
        custody: Key { hi: 9, lo: 3 },
        collateral_custody: Key { hi: 9, lo: 4 },
        id: 1,
        side: Side::Short,
        open_time: 1_000,
        update_time: 1_000,
        price: 100,
        size_usd: 10_000,
        borrow_size_usd: 0,
        collateral_usd: 2_000,
        collateral_amount: 2_000,
        locked_amount: 500,
        unrealized_interest_usd: 5,
        paid_interest_usd: 0,
        cumulative_interest_snapshot: 0,
        exit_fee_usd: 10,
        liquidation_fee_usd: 20,
        take_profit_is_set: false,
        take_profit_limit_price: 0,
        stop_loss_is_set: false,
        stop_loss_limit_price: 0,
        stop_loss_close_position_price: 0,
    }
}

fn key(n: u128) -> Key {
    Key { hi: 2, lo: n }
}

fn params(price: Option<u64>, percentage: u64) -> ClosePositionShortParams {
    ClosePositionShortParams { price, percentage }
}

fn by(caller_is_owner: bool) -> CloseTriggers {
    CloseTriggers { caller_is_owner, take_profit_reached: false, stop_loss_reached: false, stop_loss_slippage_ok: true }
}

fn no_referral() -> Referral {
    Referral { profile_referrer: None, referrer_account: None }
}

#[test]
fn referrer_resolution() {
    assert_eq!(resolve_referrer(None, Some(key(1))), Ok(false));
    assert_eq!(resolve_referrer(Some(key(1)), Some(key(1))), Ok(true));
    assert_eq!(resolve_referrer(Some(key(1)), Some(key(2))), Err(AdrenaError::MissingOrInvalidReferrerAccount));
    assert_eq!(resolve_referrer(Some(Key::default_key()), None), Ok(false));
    assert_eq!(resolve_referrer(Some(key(1)), None), Err(AdrenaError::MissingOrInvalidReferrerAccount));
}

#[test]
fn position_fee_with_and_without_referrer() {
    let mut pool = PoolFees { fees_debt_usd: 100, referrers_fee_debt_usd: 10, cumulative_referrer_fee_usd: 10 };
    let mut referrer = ReferrerFees { claimable_referral_fee_usd: 1, total_referral_fee_usd: 2 };
    assert_eq!(distribute_position_fee(&mut pool, &mut referrer, 1_000, true, 100, 700), 100);
    assert_eq!(pool, PoolFees { fees_debt_usd: 300, referrers_fee_debt_usd: 110, cumulative_referrer_fee_usd: 110 });
    assert_eq!(referrer, ReferrerFees { claimable_referral_fee_usd: 101, total_referral_fee_usd: 102 });
    // Every unit of the fee is accounted for: debt, referrer and liquidity providers.
    assert_eq!((300 - 100) + (110 - 10) + 700, 1_000);
    assert_eq!(distribute_position_fee(&mut pool, &mut referrer, 1_000, false, 100, 700), 0);
    assert_eq!(pool.fees_debt_usd, 600);
    assert_eq!(pool.referrers_fee_debt_usd, 110);
    assert_eq!(referrer.claimable_referral_fee_usd, 101);
}

#[test]
fn fee_left_to_distribute() {
    assert_eq!(fee_to_distribute(100, 30), 70);
    assert_eq!(fee_to_distribute(30, 100), 0);
}

#[test]
fn exit_settles_the_custody() {
    let mut a = CustodyAssets { owned: 1_000, collateral: 500, locked: 7 };
    // The trader gets back less than the collateral: the pool keeps the rest.
    settle_position_exit(&mut a, 300, 5, 200);
    assert_eq!(a, CustodyAssets { owned: 1_100, collateral: 200, locked: 2 });
    // The trader gets more: the pool pays the difference.
    settle_position_exit(&mut a, 200, 2, 450);
    assert_eq!(a, CustodyAssets { owned: 850, collateral: 0, locked: 0 });
}

#[test]
fn close_request_checks() {
    let p = position();
    let n = no_referral();
    assert_eq!(check_close_request(&p, &params(Some(90), 1_000_000), &by(true), &n, 1_005, 10, 80), Err(AdrenaError::PositionTooYoung));
    assert_eq!(check_close_request(&p, &params(Some(0), 1_000_000), &by(true), &n, 2_000, 10, 80), Err(AdrenaError::InvalidArgument));
    assert_eq!(check_close_request(&p, &params(Some(90), 9_999), &by(true), &n, 2_000, 10, 80), Err(AdrenaError::InvalidArgument));
    assert_eq!(check_close_request(&p, &params(Some(90), 1_000_001), &by(true), &n, 2_000, 10, 80), Err(AdrenaError::InvalidArgument));
    assert_eq!(check_close_request(&p, &params(None, 1_000_000), &by(true), &n, 2_000, 10, 80), Err(AdrenaError::MissingClosePositionPrice));
    assert_eq!(check_close_request(&p, &params(Some(70), 1_000_000), &by(true), &n, 2_000, 10, 80), Err(AdrenaError::MaxPriceSlippage));
    assert_eq!(check_close_request(&p, &params(Some(80), 1_000_000), &by(true), &n, 2_000, 10, 80), Ok((false, false)));
    assert_eq!(check_close_request(&p, &params(Some(80), 500_000), &by(true), &n, 2_000, 10, 80), Ok((true, false)));
}

#[test]
fn close_request_referral() {
    let p = position();
    let good = Referral { profile_referrer: Some(key(7)), referrer_account: Some(key(7)) };
    assert_eq!(check_close_request(&p, &params(Some(80), 1_000_000), &by(true), &good, 2_000, 10, 80), Ok((false, true)));
    // A profile without referrer, and no referrer given.
    let none = Referral { profile_referrer: Some(Key::default_key()), referrer_account: None };
    assert_eq!(check_close_request(&p, &params(Some(80), 1_000_000), &by(true), &none, 2_000, 10, 80), Ok((false, false)));
    // The referral is checked before who the caller is.
    let bad = Referral { profile_referrer: Some(key(7)), referrer_account: Some(key(8)) };
    assert_eq!(
        check_close_request(&p, &params(None, 1_000_000), &by(false), &bad, 2_000, 10, 80),
        Err(AdrenaError::MissingOrInvalidReferrerAccount)
    );
}

#[test]
fn close_by_someone_else() {
    let mut p = position();
    let n = no_referral();
    assert_eq!(check_close_request(&p, &params(None, 1_000_000), &by(false), &n, 2_000, 10, 80), Err(AdrenaError::InvalidPositionState));
    p.take_profit_is_set = true;
    let mut t = by(false);
    t.take_profit_reached = true;
    assert_eq!(check_close_request(&p, &params(None, 1_000_000), &t, &n, 2_000, 10, 80), Ok((false, false)));
    t.stop_loss_slippage_ok = false;
    assert_eq!(check_close_request(&p, &params(None, 1_000_000), &t, &n, 2_000, 10, 80), Err(AdrenaError::MaxPriceSlippage));
    t.stop_loss_slippage_ok = true;
    assert_eq!(check_close_request(&p, &params(None, 500_000), &t, &n, 2_000, 10, 80), Err(AdrenaError::InvalidPositionState));
}

fn open_params(price: u64, collateral: u64, leverage: u32) -> OpenPositionLongParams {
    OpenPositionLongParams { price, collateral, leverage }
}

fn owner_caller() -> OpenPositionCaller {
    OpenPositionCaller {
        caller_is_transfer_authority: false,
        funding_owned_by_transfer_authority: false,
        owner_is_signer: true,
        funding_owned_by_owner: true,
    }
}

#[test]
fn open_position_long_sizes() {
    // 100 tokens at 5x.
    assert_eq!(open_position_long_size(true, &open_params(110, 100, 50_000), false, &owner_caller(), 100, 1_000, 10), Ok(500));
    let mut authority = owner_caller();
    authority.caller_is_transfer_authority = true;
    authority.funding_owned_by_transfer_authority = true;
    assert_eq!(open_position_long_size(true, &open_params(110, 100, 20_000), false, &authority, 100, 1_000, 10), Ok(200));
}

#[test]
fn open_position_long_errors() {
    let c = owner_caller();
    assert_eq!(open_position_long_size(false, &open_params(110, 100, 50_000), false, &c, 100, 1_000, 10), Err(AdrenaError::InstructionNotAllowed));
    assert_eq!(open_position_long_size(true, &open_params(0, 100, 50_000), false, &c, 100, 1_000, 10), Err(AdrenaError::InvalidArgument));
    assert_eq!(open_position_long_size(true, &open_params(110, 100, 0), false, &c, 100, 1_000, 10), Err(AdrenaError::InvalidArgument));
    assert_eq!(open_position_long_size(true, &open_params(110, 100, 50_000), true, &c, 100, 1_000, 10), Err(AdrenaError::InvalidCustody));
    let mut not_signed = c;
    not_signed.owner_is_signer = false;
    assert_eq!(open_position_long_size(true, &open_params(110, 100, 50_000), false, &not_signed, 100, 1_000, 10), Err(AdrenaError::InvalidArgument));
    let mut wrong_funding = c;
    wrong_funding.caller_is_transfer_authority = true;
    assert_eq!(open_position_long_size(true, &open_params(110, 100, 50_000), false, &wrong_funding, 100, 1_000, 10), Err(AdrenaError::InvalidArgument));
    assert_eq!(open_position_long_size(true, &open_params(99, 100, 50_000), false, &c, 100, 1_000, 10), Err(AdrenaError::MaxPriceSlippage));
    assert_eq!(open_position_long_size(true, &open_params(110, 100, 50_000), false, &c, 100, 9, 10), Err(AdrenaError::InsufficientCollateral));
    assert_eq!(open_position_long_size(true, &open_params(110, u64::MAX, 50_000), false, &c, 100, 1_000, 10), Err(AdrenaError::MathOverflow));
}

#[test]
fn collateral_in_and_out() {
    let mut p = position();
    let mut held: u64 = 5_000;
    let mut long_usd: u64 = 3_000;
    assert_eq!(add_collateral_short(&mut p, &AddCollateralShortParams { collateral: 0 }, 0, Ok(()), 5, &mut held), Err(AdrenaError::InvalidArgument));
    assert_eq!(
        add_collateral_short(&mut p, &AddCollateralShortParams { collateral: 100 }, 150, Err(AdrenaError::MaxLeverage), 5, &mut held),
        Err(AdrenaError::MaxLeverage)
    );
    assert_eq!((p, held), (position(), 5_000));
    assert_eq!(add_collateral_short(&mut p, &AddCollateralShortParams { collateral: 100 }, 150, Ok(()), 5, &mut held), Ok(()));
    assert_eq!((p.collateral_amount, p.collateral_usd, p.update_time, held), (2_100, 2_150, 5, 5_100));
    let take = |usd: u64| RemoveCollateralLongParams { collateral_usd: usd };
    assert_eq!(remove_collateral_long(&mut p, false, &take(10), 10, Ok(()), 6, &mut held, &mut long_usd), Err(AdrenaError::InstructionNotAllowed));
    assert_eq!(remove_collateral_long(&mut p, true, &take(0), 10, Ok(()), 6, &mut held, &mut long_usd), Err(AdrenaError::InvalidArgument));
    assert_eq!(remove_collateral_long(&mut p, true, &take(2_150), 10, Ok(()), 6, &mut held, &mut long_usd), Err(AdrenaError::InvalidArgument));
    assert_eq!(remove_collateral_long(&mut p, true, &take(100), 2_101, Ok(()), 6, &mut held, &mut long_usd), Err(AdrenaError::InsufficientFunds));
    assert_eq!(
        remove_collateral_long(&mut p, true, &take(150), 100, Err(AdrenaError::MaxLeverage), 6, &mut held, &mut long_usd),
        Err(AdrenaError::MaxLeverage)
    );
    assert_eq!((p.collateral_amount, p.collateral_usd, held, long_usd), (2_100, 2_150, 5_100, 3_000));
    assert_eq!(remove_collateral_long(&mut p, true, &take(150), 100, Ok(()), 6, &mut held, &mut long_usd), Ok(()));
    assert_eq!((p.collateral_amount, p.collateral_usd, p.update_time), (2_000, 2_000, 6));
    assert_eq!((held, long_usd), (5_000, 2_850));
}

#[test]
fn position_priced_for_liquidation() {
    let p = position();
    let add = GetLiquidationPriceParams { add_collateral: 100, remove_collateral: 0 };
    let q = position_for_liquidation_price(&p, &add, 150, 0, 9).unwrap();
    assert_eq!((q.collateral_amount, q.collateral_usd, q.update_time), (2_100, 2_150, 9));
    let remove = GetLiquidationPriceParams { add_collateral: 0, remove_collateral: 500 };
    let q = position_for_liquidation_price(&p, &remove, 0, 400, 9).unwrap();
    assert_eq!((q.collateral_amount, q.collateral_usd), (1_500, 1_600));
    let all = GetLiquidationPriceParams { add_collateral: 0, remove_collateral: 2_000 };
    assert_eq!(position_for_liquidation_price(&p, &all, 0, 10, 9).map(|q| q.id), Err(AdrenaError::InsufficientFunds));
}

#[test]
fn automated_orders_on_a_position() {
    let mut p = position();
    assert_eq!(set_stop_loss_long(&mut p, &SetStopLossLongParams { stop_loss_limit_price: 90, close_position_price: Some(95) }), Err(AdrenaError::InvalidArgument));
    assert!(!p.stop_loss_is_set);
    assert_eq!(set_stop_loss_long(&mut p, &SetStopLossLongParams { stop_loss_limit_price: 90, close_position_price: Some(85) }), Ok(()));
    assert_eq!((p.stop_loss_is_set, p.stop_loss_limit_price, p.stop_loss_close_position_price), (true, 90, 85));
    assert_eq!(set_stop_loss_long(&mut p, &SetStopLossLongParams { stop_loss_limit_price: 80, close_position_price: None }), Ok(()));
    assert_eq!(p.stop_loss_close_position_price, 0);
    assert!(!cancel_take_profit(&mut p));
    set_take_profit_long(&mut p, &SetTakeProfitLongParams { take_profit_limit_price: 150 });
    assert_eq!((p.take_profit_is_set, p.take_profit_limit_price), (true, 150));
    assert!(cancel_take_profit(&mut p));
    assert_eq!((p.take_profit_is_set, p.take_profit_limit_price), (false, 0));
}

#[test]
fn borrow_fees_settled() {
    let mut p = position();
    let mut pool = PoolFees { fees_debt_usd: 0, referrers_fee_debt_usd: 0, cumulative_referrer_fee_usd: 0 };
    let mut referrer = ReferrerFees { claimable_referral_fee_usd: 0, total_referral_fee_usd: 0 };
    let mut collected: u64 = 100;
    let mut loss: u64 = 50;
    assert_eq!(resolve_position_borrow_fees(&mut p, 7, 99, true, 2, 5, &mut pool, &mut referrer, &mut collected, &mut loss), Some(12));
    assert_eq!((p.unrealized_interest_usd, p.paid_interest_usd, p.cumulative_interest_snapshot), (0, 12, 99));
    // 12 due: 2 to the referrer, 5 to the liquidity providers, 5 owed by the pool.
    assert_eq!(pool, PoolFees { fees_debt_usd: 5, referrers_fee_debt_usd: 2, cumulative_referrer_fee_usd: 2 });
    assert_eq!(referrer, ReferrerFees { claimable_referral_fee_usd: 2, total_referral_fee_usd: 2 });
    assert_eq!((collected, loss), (112, 62));
    assert_eq!(resolve_position_borrow_fees(&mut p, 0, 100, true, 2, 5, &mut pool, &mut referrer, &mut collected, &mut loss), None);
    assert_eq!(p.cumulative_interest_snapshot, 99);
    assert_eq!((collected, loss, pool.fees_debt_usd), (112, 62, 5));
}

#[test]
fn exit_statistics() {
    let mut f = ExitFeeStats { exit_fees_usd: 1, borrow_fees_usd: 2 };
    let mut t = ExitTradeStats { volume_usd: 3, open_interest_usd: 10_000, loss_usd: 4, profit_usd: 5 };
    let e = ExitNumbers { close_amount: 0, exit_fee_usd: 10, borrow_fee_usd: 30, loss_usd: 100, profit_usd: 0, total_fee_usd: 40 };
    record_exit_stats(&mut f, &mut t, &e, 8_000, 12);
    assert_eq!(f, ExitFeeStats { exit_fees_usd: 11, borrow_fees_usd: 20 });
    assert_eq!(t, ExitTradeStats { volume_usd: 8_003, open_interest_usd: 2_000, loss_usd: 92, profit_usd: 5 });
    let e = ExitNumbers { close_amount: 0, exit_fee_usd: 0, borrow_fee_usd: 5, loss_usd: 5, profit_usd: 70, total_fee_usd: 5 };
    record_exit_stats(&mut f, &mut t, &e, 2_000, 12);
    assert_eq!(f, ExitFeeStats { exit_fees_usd: 11, borrow_fees_usd: 20 });
    assert_eq!(t, ExitTradeStats { volume_usd: 10_003, open_interest_usd: 0, loss_usd: 92, profit_usd: 75 });
}

#[test]
fn liquidation_allowed_only_past_max_leverage() {
    assert_eq!(check_liquidation(Err(AdrenaError::MaxLeverage)), Ok(()));
    assert_eq!(check_liquidation(Ok(())), Err(AdrenaError::PositionNotInLiquidationRange));
    assert_eq!(check_liquidation(Err(AdrenaError::MathOverflow)), Err(AdrenaError::PositionNotInLiquidationRange));
    assert_eq!(check_payout_available(true), Ok(()));
    assert_eq!(check_payout_available(false), Err(AdrenaError::CustodyAmountLimit));
}

fn accounts() -> PositionAccounts {
    PositionAccounts { owner: key(1), pool: key(2), custody: key(3) }
}

#[test]
fn a_new_long_position() {
    let p = new_long_position(&accounts(), 9, 1_234, 100, 500, 50_000, 100, 10_000, 40, 60, 777);
    assert_eq!(p.side, Side::Long);
    assert_eq!((p.owner, p.pool, p.custody, p.collateral_custody), (key(1), key(2), key(3), key(3)));
    assert_eq!((p.id, p.open_time, p.update_time, p.price), (9, 1_234, 0, 100));
    assert_eq!((p.size_usd, p.borrow_size_usd, p.locked_amount), (50_000, 50_000, 500));
    assert_eq!((p.collateral_amount, p.collateral_usd), (100, 10_000));
    assert_eq!((p.exit_fee_usd, p.liquidation_fee_usd, p.cumulative_interest_snapshot), (40, 60, 777));
    assert_eq!((p.unrealized_interest_usd, p.paid_interest_usd), (0, 0));
    assert!(!p.take_profit_is_set && !p.stop_loss_is_set);
}

#[test]
fn opening_statistics() {
    let mut s = OpenStats { collateral: 10, open_volume_usd: u64::MAX - 1, open_interest_usd: 5 };
    record_open_stats(&mut s, 100, 50_000);
    assert_eq!(s, OpenStats { collateral: 110, open_volume_usd: 49_998, open_interest_usd: 50_005 });
}

fn exit_numbers() -> ExitNumbers {
    // The trader gets 1_500 tokens back for 2_000 of collateral.
    ExitNumbers { close_amount: 1_500, exit_fee_usd: 10, borrow_fee_usd: 8, loss_usd: 500, profit_usd: 0, total_fee_usd: 18 }
}

#[test]
fn exit_settlement() {
    let mut closed = position();
    closed.paid_interest_usd = 3;
    let mut assets = CustodyAssets { owned: 10_000, collateral: 5_000, locked: 900 };
    let mut fees = ExitFeeStats { exit_fees_usd: 0, borrow_fees_usd: 0 };
    let mut trade = ExitTradeStats { volume_usd: 0, open_interest_usd: 50_000, loss_usd: 0, profit_usd: 0 };
    let mut pool = PoolFees { fees_debt_usd: 0, referrers_fee_debt_usd: 0, cumulative_referrer_fee_usd: 0 };
    let mut referrer = ReferrerFees { claimable_referral_fee_usd: 0, total_referral_fee_usd: 0 };
    assert_eq!(
        settle_exit(&closed, &exit_numbers(), false, true, 3, 5, &mut assets, &mut fees, &mut trade, &mut pool, &mut referrer),
        Err(AdrenaError::CustodyAmountLimit)
    );
    let r = settle_exit(&closed, &exit_numbers(), true, true, 3, 5, &mut assets, &mut fees, &mut trade, &mut pool, &mut referrer);
    assert_eq!(r, Ok(ExitSettlement { payout: 1_500, referrer_fee_usd: 3 }));
    assert_eq!(assets, CustodyAssets { owned: 10_500, collateral: 3_000, locked: 400 });
    assert_eq!(fees, ExitFeeStats { exit_fees_usd: 10, borrow_fees_usd: 5 });
    assert_eq!(trade, ExitTradeStats { volume_usd: 10_000, open_interest_usd: 40_000, loss_usd: 497, profit_usd: 0 });
    // 15 to share: 3 to the referrer, 5 to the liquidity providers, 7 owed by the pool.
    assert_eq!(pool, PoolFees { fees_debt_usd: 7, referrers_fee_debt_usd: 3, cumulative_referrer_fee_usd: 3 });
    assert_eq!(referrer, ReferrerFees { claimable_referral_fee_usd: 3, total_referral_fee_usd: 3 });
}

#[test]
fn close_a_short_position() {
    let mut p = position();
    let closed = position();
    let mut assets = CustodyAssets { owned: 10_000, collateral: 5_000, locked: 900 };
    let mut fees = ExitFeeStats { exit_fees_usd: 0, borrow_fees_usd: 0 };
    let mut trade = ExitTradeStats { volume_usd: 0, open_interest_usd: 50_000, loss_usd: 0, profit_usd: 0 };
    let mut pool = PoolFees { fees_debt_usd: 0, referrers_fee_debt_usd: 0, cumulative_referrer_fee_usd: 0 };
    let mut referrer = ReferrerFees { claimable_referral_fee_usd: 0, total_referral_fee_usd: 0 };
    let n = no_referral();
    // A refused request changes nothing.
    assert_eq!(
        close_position_short(&mut p, &params(Some(70), 1_000_000), &by(true), &n, 2_000, 10, 80, 100, &closed, &exit_numbers(), true, 3, 5,
            &mut assets, &mut fees, &mut trade, &mut pool, &mut referrer),
        Err(AdrenaError::MaxPriceSlippage)
    );
    assert_eq!(
        close_position_short(&mut p, &params(Some(90), 1_000_000), &by(true), &n, 2_000, 10, 80, 100, &closed, &exit_numbers(), false, 3, 5,
            &mut assets, &mut fees, &mut trade, &mut pool, &mut referrer),
        Err(AdrenaError::CustodyAmountLimit)
    );
    assert_eq!(p, position());
    assert_eq!(assets, CustodyAssets { owned: 10_000, collateral: 5_000, locked: 900 });
    let r = close_position_short(&mut p, &params(Some(90), 1_000_000), &by(true), &n, 2_000, 10, 80, 100, &closed, &exit_numbers(), true, 3, 5,
        &mut assets, &mut fees, &mut trade, &mut pool, &mut referrer);
    assert_eq!(r, Ok(ClosedPosition { is_partial_close: false, settlement: ExitSettlement { payout: 1_500, referrer_fee_usd: 0 } }));
    // A whole close deletes the position and unlocks what it had locked.
    assert_eq!(p.side, Side::Unset);
    assert_eq!((p.id, p.size_usd, p.collateral_amount, p.locked_amount), (0, 0, 0, 0));
    assert_eq!(p.owner, Key::default_key());
    assert_eq!(assets, CustodyAssets { owned: 10_500, collateral: 3_000, locked: 400 });
    assert_eq!(trade.open_interest_usd, 40_000);
    // Without a referrer the protocol's share stays a debt of the pool.
    assert_eq!(pool, PoolFees { fees_debt_usd: 13, referrers_fee_debt_usd: 0, cumulative_referrer_fee_usd: 0 });
    assert_eq!(referrer, ReferrerFees { claimable_referral_fee_usd: 0, total_referral_fee_usd: 0 });
}

fn half_of_position() -> Position {
    let mut h = position();
    h.size_usd = 5_000;
    h.borrow_size_usd = 0;
    h.collateral_usd = 1_000;
    h.collateral_amount = 1_000;
    h.locked_amount = 250;
    h.unrealized_interest_usd = 2;
    h.exit_fee_usd = 5;
    h.liquidation_fee_usd = 10;
    h
}

#[test]
fn close_half_of_a_short_position() {
    let mut p = position();
    let closed = half_of_position();
    let mut assets = CustodyAssets { owned: 10_000, collateral: 5_000, locked: 900 };
    let mut fees = ExitFeeStats { exit_fees_usd: 0, borrow_fees_usd: 0 };
    let mut trade = ExitTradeStats { volume_usd: 0, open_interest_usd: 50_000, loss_usd: 0, profit_usd: 0 };
    let mut pool = PoolFees { fees_debt_usd: 0, referrers_fee_debt_usd: 0, cumulative_referrer_fee_usd: 0 };
    let mut referrer = ReferrerFees { claimable_referral_fee_usd: 0, total_referral_fee_usd: 0 };
    let n = no_referral();
    let exit = ExitNumbers { close_amount: 800, exit_fee_usd: 5, borrow_fee_usd: 2, loss_usd: 200, profit_usd: 0, total_fee_usd: 7 };
    // What would be left is worth less than the minimum collateral: refused, nothing changes.
    assert_eq!(
        close_position_short(&mut p, &params(Some(90), 500_000), &by(true), &n, 2_000, 10, 80, 1_001, &closed, &exit, true, 0, 0,
            &mut assets, &mut fees, &mut trade, &mut pool, &mut referrer),
        Err(AdrenaError::InsufficientCollateral)
    );
    assert_eq!(p, position());
    assert_eq!(assets, CustodyAssets { owned: 10_000, collateral: 5_000, locked: 900 });
    let r = close_position_short(&mut p, &params(Some(90), 500_000), &by(true), &n, 2_000, 10, 80, 1_000, &closed, &exit, true, 0, 0,
        &mut assets, &mut fees, &mut trade, &mut pool, &mut referrer);
    assert_eq!(r, Ok(ClosedPosition { is_partial_close: true, settlement: ExitSettlement { payout: 800, referrer_fee_usd: 0 } }));
    // The closed half leaves the position.
    assert_eq!((p.size_usd, p.collateral_usd, p.collateral_amount, p.locked_amount), (5_000, 1_000, 1_000, 250));
    assert_eq!((p.unrealized_interest_usd, p.exit_fee_usd, p.liquidation_fee_usd), (3, 5, 10));
    assert_eq!((p.id, p.side, p.owner), (1, Side::Short, Key { hi: 9, lo: 1 }));
    assert_eq!(assets, CustodyAssets { owned: 10_200, collateral: 4_000, locked: 650 });
    assert_eq!(trade.open_interest_usd, 45_000);
}

#[test]
fn liquidate_a_long_position() {
    let mut p = position();
    p.side = Side::Long;
    let before = p;
    let mut assets = CustodyAssets { owned: 10_000, collateral: 5_000, locked: 900 };
    let mut fees = ExitFeeStats { exit_fees_usd: 0, borrow_fees_usd: 0 };
    let mut trade = ExitTradeStats { volume_usd: 0, open_interest_usd: 50_000, loss_usd: 0, profit_usd: 0 };
    let mut pool = PoolFees { fees_debt_usd: 0, referrers_fee_debt_usd: 0, cumulative_referrer_fee_usd: 0 };
    let mut referrer = ReferrerFees { claimable_referral_fee_usd: 0, total_referral_fee_usd: 0 };
    let good = Referral { profile_referrer: Some(key(7)), referrer_account: Some(key(7)) };
    let bad = Referral { profile_referrer: Some(key(7)), referrer_account: None };
    assert_eq!(
        liquidate_long(&mut p, &bad, Err(AdrenaError::MaxLeverage), &exit_numbers(), true, 3, 5, &mut assets, &mut fees, &mut trade, &mut pool, &mut referrer),
        Err(AdrenaError::MissingOrInvalidReferrerAccount)
    );
    assert_eq!(
        liquidate_long(&mut p, &good, Ok(()), &exit_numbers(), true, 3, 5, &mut assets, &mut fees, &mut trade, &mut pool, &mut referrer),
        Err(AdrenaError::PositionNotInLiquidationRange)
    );
    assert_eq!(
        liquidate_long(&mut p, &good, Err(AdrenaError::MaxLeverage), &exit_numbers(), false, 3, 5, &mut assets, &mut fees, &mut trade, &mut pool, &mut referrer),
        Err(AdrenaError::CustodyAmountLimit)
    );
    assert_eq!(p, before);
    let r = liquidate_long(&mut p, &good, Err(AdrenaError::MaxLeverage), &exit_numbers(), true, 3, 5, &mut assets, &mut fees, &mut trade, &mut pool, &mut referrer);
    assert_eq!(before.side, Side::Long);
    assert_eq!(r, Ok(ExitSettlement { payout: 1_500, referrer_fee_usd: 3 }));
    assert_eq!(p.side, Side::Unset);
    assert_eq!(assets.locked, 400);
    assert_eq!(fees.exit_fees_usd, 10);
    assert_eq!(trade, ExitTradeStats { volume_usd: 10_000, open_interest_usd: 40_000, loss_usd: 500, profit_usd: 0 });
    assert_eq!(pool, PoolFees { fees_debt_usd: 10, referrers_fee_debt_usd: 3, cumulative_referrer_fee_usd: 3 });
    assert_eq!(referrer.claimable_referral_fee_usd, 3);
}

#[test]
fn open_a_long_position() {
    let pricing = NewPositionPricing { size_usd: 50_000, exit_fee_usd: 40, liquidation_fee_usd: 60, cumulative_interest_snapshot: 777 };
    let mut stats = OpenStats { collateral: 10, open_volume_usd: 0, open_interest_usd: 5 };
    let a = accounts();
    assert_eq!(
        open_position_long(true, &open_params(99, 100, 50_000), false, &owner_caller(), &a, 100, 10_000, 10, &pricing, Ok(()), 9, 1_234, &mut stats).map(|p| p.id),
        Err(AdrenaError::MaxPriceSlippage)
    );
    assert_eq!(stats, OpenStats { collateral: 10, open_volume_usd: 0, open_interest_usd: 5 });
    // Past the pool's leverage limit: refused with the check's error.
    assert_eq!(
        open_position_long(true, &open_params(110, 100, 50_000), false, &owner_caller(), &a, 100, 10_000, 10, &pricing, Err(AdrenaError::MaxLeverage), 9, 1_234, &mut stats).map(|p| p.id),
        Err(AdrenaError::MaxLeverage)
    );
    assert_eq!(stats, OpenStats { collateral: 10, open_volume_usd: 0, open_interest_usd: 5 });
    let p = open_position_long(true, &open_params(110, 100, 50_000), false, &owner_caller(), &a, 100, 10_000, 10, &pricing, Ok(()), 9, 1_234, &mut stats).unwrap();
    assert_eq!(p, new_long_position(&a, 9, 1_234, 100, 500, 50_000, 100, 10_000, 40, 60, 777));
    assert_eq!((p.custody, p.collateral_custody), (key(3), key(3)));
    assert_eq!(stats, OpenStats { collateral: 110, open_volume_usd: 50_000, open_interest_usd: 50_005 });
}
