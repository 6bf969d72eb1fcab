use lib::error::AdrenaError;
use lib::key::Key;
use lib::orders::{
    add_limit_order, cancel_limit_order, check_limit_order, collateral_after_swap, decode_side,
    escrow_after_order_removed, escrow_limit_order_lamports, execute_limit_order_long,
    increases_existing_position, init_limit_order_book, open_or_increase_position_with_swap_long,
    open_or_increase_position_with_swap_short, pay_executor, sweep_escrow_into_pool,
    AddLimitOrderParams, AddedLimitOrder, CancelLimitOrderParams, CancelledLimitOrder, ExecuteLimitOrderLongParams,
    ExecutedLimitOrder, LimitOrder, LimitOrderBook, LimitOrderCustodies, MAX_LIMIT_ORDERS,
    OpenPositionWithSwapParams, SwapOpening, AUTOMATION_EXECUTION_FEE,
};
use lib::position::{Position, Side};
use lib::views::{
    check_swap_quote, entry_position_size, exit_fee_usd_estimate, get_entry_price_and_fee,
    get_open_position_with_swap_amount_and_fees, swap_leg, EntryPricing, GetEntryPriceAndFeeParams,
    GetOpenPositionWithSwapAmountAndFeesParams, GetSwapAmountAndFeesParams, NewPositionPricesAndFee,
    OpenPositionWithSwapAmountAndFees, SwapQuote,
};

fn book(initialized: bool) -> LimitOrderBook {
    LimitOrderBook { owner: key(1), initialized, bump: 1, escrowed_lamports: 0, registered_limit_order_count: 0, limit_orders: vec![] }
}

fn stored(id: u64, collateral_custody: Key, amount: u64) -> LimitOrder {
    LimitOrder { id, trigger_price: 100, limit_price: 0, custody: collateral_custody, collateral_custody, side: 1, amount, leverage: 20_000 }
}

/// A book holding orders 3 (collateral in custody 5), 4 (custody 5) and 7 (custody 6).
fn book_with_orders() -> LimitOrderBook {
    LimitOrderBook {
        owner: key(1),
        initialized: true,
        bump: 1,
        escrowed_lamports: 30_000_000,
        registered_limit_order_count: 3,
        limit_orders: vec![stored(3, key(5), 100), stored(4, key(5), 50), stored(7, key(6), 20)],
    }
}

fn is_blank(b: &LimitOrderBook) -> bool {
    b.owner == Key::default_key() && !b.initialized && b.bump == 0 && b.escrowed_lamports == 0
        && b.registered_limit_order_count == 0 && b.limit_orders.is_empty()
}

fn key(n: u128) -> Key {
    Key { hi: 4, lo: n }
}

fn long_custodies() -> LimitOrderCustodies {
    LimitOrderCustodies {
        custody_in_pool: true,
        collateral_custody_in_pool: true,
        custody: key(5),
        collateral_custody: key(5),
        custody_is_stable: false,
        collateral_custody_is_stable: false,
    }
}

fn order(side: u8, trigger_price: u64, limit_price: Option<u64>) -> AddLimitOrderParams {
    AddLimitOrderParams { side, trigger_price, limit_price, amount: 100, leverage: 20_000 }
}

#[test]
fn sides() {
    assert_eq!(decode_side(1), Some(Side::Long));
    assert_eq!(decode_side(2), Some(Side::Short));
    assert_eq!(decode_side(0), None);
    assert_eq!(decode_side(3), None);
}

#[test]
fn limit_order_validation() {
    assert_eq!(check_limit_order(&order(1, 100, Some(90)), &long_custodies()), Ok(()));
    assert_eq!(check_limit_order(&order(1, 100, None), &long_custodies()), Ok(()));
    assert_eq!(check_limit_order(&order(1, 100, Some(101)), &long_custodies()), Err(AdrenaError::InvalidArgument));
    assert_eq!(check_limit_order(&order(1, 100, Some(0)), &long_custodies()), Err(AdrenaError::InvalidArgument));
    assert_eq!(check_limit_order(&order(3, 100, None), &long_custodies()), Err(AdrenaError::InvalidArgument));
    assert_eq!(check_limit_order(&order(1, 0, None), &long_custodies()), Err(AdrenaError::InvalidArgument));
    let mut zero_amount = order(1, 100, None);
    zero_amount.amount = 0;
    assert_eq!(check_limit_order(&zero_amount, &long_custodies()), Err(AdrenaError::InvalidArgument));
    let mut zero_leverage = order(1, 100, None);
    zero_leverage.leverage = 0;
    assert_eq!(check_limit_order(&zero_leverage, &long_custodies()), Err(AdrenaError::InvalidArgument));
    let mut stable = long_custodies();
    stable.custody_is_stable = true;
    assert_eq!(check_limit_order(&order(1, 100, None), &stable), Err(AdrenaError::InvalidArgument));
    let mut outside = long_custodies();
    outside.collateral_custody_in_pool = false;
    assert_eq!(check_limit_order(&order(1, 100, None), &outside), Err(AdrenaError::InvalidArgument));
}

#[test]
fn short_limit_orders() {
    let short = LimitOrderCustodies {
        custody_in_pool: true,
        collateral_custody_in_pool: true,
        custody: key(5),
        collateral_custody: key(6),
        custody_is_stable: false,
        collateral_custody_is_stable: true,
    };
    assert_eq!(check_limit_order(&order(2, 100, Some(110)), &short), Ok(()));
    assert_eq!(check_limit_order(&order(2, 100, Some(99)), &short), Err(AdrenaError::InvalidArgument));
    assert_eq!(check_limit_order(&order(2, 100, None), &long_custodies()), Err(AdrenaError::InvalidArgument));
}

#[test]
fn lamports_escrowed_and_paid() {
    let mut escrowed = 1_000u64;
    assert_eq!(escrow_limit_order_lamports(&mut escrowed, 2_000_000), 2_000_000 + AUTOMATION_EXECUTION_FEE);
    assert_eq!(escrowed, 1_000 + 2_000_000 + AUTOMATION_EXECUTION_FEE);
    // The executor spent 1_500_000 lamports: it gets them back with the fee.
    assert_eq!(pay_executor(&mut escrowed, 3_000_000, 1_500_000), 1_500_000 + AUTOMATION_EXECUTION_FEE);
    assert_eq!(escrowed, 501_000);
    // Never more than is escrowed.
    assert_eq!(pay_executor(&mut escrowed, 3_000_000, 1_500_000), 501_000);
    assert_eq!(escrowed, 0);
}

#[test]
fn order_book_lifecycle() {
    let b = init_limit_order_book(key(1), 254);
    assert_eq!(b, LimitOrderBook { owner: key(1), initialized: true, bump: 254, escrowed_lamports: 0, registered_limit_order_count: 0, limit_orders: vec![] });
    let cancel = |id: u64| CancelLimitOrderParams { id };
    let mut b = book_with_orders();
    assert_eq!(cancel_limit_order(&mut book(false), &cancel(3), true, key(5), 500), Err(AdrenaError::InvalidArgument));
    assert_eq!(cancel_limit_order(&mut b, &cancel(0), true, key(5), 500), Err(AdrenaError::InvalidArgument));
    assert_eq!(cancel_limit_order(&mut b, &cancel(3), false, key(5), 500), Err(AdrenaError::InvalidArgument));
    assert_eq!(cancel_limit_order(&mut b, &cancel(9), true, key(5), 500), Err(AdrenaError::LimitOrderNotFound));
    assert_eq!(cancel_limit_order(&mut b, &cancel(3), true, key(6), 500), Err(AdrenaError::InvalidArgument));
    assert_eq!(b, book_with_orders());
    // Order 4 still uses the escrow of custody 5: it stays open.
    assert_eq!(cancel_limit_order(&mut b, &cancel(3), true, key(5), 500), Ok(CancelledLimitOrder { refund: 100, escrow_sweep: None, book_closed: false }));
    assert_eq!(b.limit_orders, vec![stored(4, key(5), 50), stored(7, key(6), 20)]);
    assert_eq!((b.registered_limit_order_count, b.escrowed_lamports), (2, 30_000_000));
    // The last order in custody 5 leaves: what the escrow keeps is swept out.
    assert_eq!(cancel_limit_order(&mut b, &cancel(4), true, key(5), 400), Ok(CancelledLimitOrder { refund: 50, escrow_sweep: Some(350), book_closed: false }));
    assert_eq!(b.registered_limit_order_count, 1);
    // The last order leaves: the book is blanked, to be closed.
    assert_eq!(cancel_limit_order(&mut b, &cancel(7), true, key(6), 20), Ok(CancelledLimitOrder { refund: 20, escrow_sweep: Some(0), book_closed: true }));
    assert!(is_blank(&b));
    assert_eq!(escrow_after_order_removed(true, 30), None);
    assert_eq!(escrow_after_order_removed(false, 30), Some(30));
    assert_eq!(escrow_after_order_removed(false, 0), Some(0));
}

#[test]
fn limit_order_execution() {
    let run = |b: &mut LimitOrderBook, id: u64, trade_allowed: bool, executable: bool, custody: u128, opening: Result<(), AdrenaError>, owned: &mut u64| {
        execute_limit_order_long(b, &ExecuteLimitOrderLongParams { id }, trade_allowed, executable, key(custody), None, opening, 700, owned, 3_000_000, 1_000_000)
    };
    let mut b = book_with_orders();
    let mut owned = 10u64;
    assert_eq!(run(&mut b, 9, true, true, 5, Ok(()), &mut owned), Err(AdrenaError::LimitOrderNotFound));
    assert_eq!(run(&mut b, 3, false, true, 5, Ok(()), &mut owned), Err(AdrenaError::InstructionNotAllowed));
    // Trading not allowed is answered before the order is looked up.
    assert_eq!(run(&mut b, 9, false, true, 5, Ok(()), &mut owned), Err(AdrenaError::InstructionNotAllowed));
    assert_eq!(run(&mut b, 3, true, false, 5, Ok(()), &mut owned), Err(AdrenaError::InstructionNotAllowed));
    assert_eq!(run(&mut b, 3, true, true, 6, Ok(()), &mut owned), Err(AdrenaError::InstructionNotAllowed));
    assert_eq!(run(&mut b, 3, true, true, 5, Err(AdrenaError::MaxLeverage), &mut owned), Err(AdrenaError::MaxLeverage));
    assert_eq!((b, owned), (book_with_orders(), 10));
    let mut b = book_with_orders();
    // Order 4 still uses custody 5's escrow: nothing is swept; the executor gets its cost and the fee.
    let r = run(&mut b, 3, true, true, 5, Ok(()), &mut owned);
    let pay = 2_000_000 + AUTOMATION_EXECUTION_FEE;
    assert_eq!(r, Ok(ExecutedLimitOrder { order: stored(3, key(5), 100), increase: false, executor_pay: pay, escrow_sweep: None, book_closed: false }));
    assert_eq!(b.limit_orders, vec![stored(4, key(5), 50), stored(7, key(6), 20)]);
    assert_eq!((b.registered_limit_order_count, b.escrowed_lamports, owned), (2, 30_000_000 - pay, 10));
    // The last order in custody 5: its escrow is swept into the pool.
    let r = execute_limit_order_long(&mut b, &ExecuteLimitOrderLongParams { id: 4 }, true, true, key(5), Some(10), Ok(()), 700, &mut owned, 3_000_000, 1_000_000);
    assert_eq!(r.map(|e| (e.increase, e.escrow_sweep, e.book_closed)), Ok((true, Some(700), false)));
    assert_eq!((b.registered_limit_order_count, owned), (1, 710));
    // The last order: never more than is escrowed is paid, and the book is blanked.
    let mut c = LimitOrderBook { escrowed_lamports: 1_000, registered_limit_order_count: 1, limit_orders: vec![stored(7, key(6), 20)], ..book(true) };
    let r = execute_limit_order_long(&mut c, &ExecuteLimitOrderLongParams { id: 7 }, true, true, key(6), None, Ok(()), 0, &mut owned, 3_000_000, 1_000_000);
    assert_eq!(r.map(|e| (e.executor_pay, e.escrow_sweep, e.book_closed)), Ok((1_000, Some(0), true)));
    assert!(is_blank(&c));
    let mut owned = 10u64;
    sweep_escrow_into_pool(&mut owned, 7);
    assert_eq!(owned, 17);
}

#[test]
fn position_opening_helpers() {
    assert_eq!(collateral_after_swap(true, 100, 40, 135), 95);
    assert_eq!(collateral_after_swap(false, 100, 40, 135), 100);
    assert!(increases_existing_position(Some(5)));
    assert!(!increases_existing_position(Some(0)));
    assert!(!increases_existing_position(None));
}

#[test]
fn entry_quote_sizes() {
    assert_eq!(entry_position_size(&GetEntryPriceAndFeeParams { collateral: 100, leverage: 50_000, side: 1 }), Ok((Side::Long, 500)));
    assert_eq!(entry_position_size(&GetEntryPriceAndFeeParams { collateral: 3, leverage: 15_000, side: 2 }), Ok((Side::Short, 4)));
    assert_eq!(entry_position_size(&GetEntryPriceAndFeeParams { collateral: 100, leverage: 50_000, side: 0 }), Err(AdrenaError::InvalidArgument));
    assert_eq!(entry_position_size(&GetEntryPriceAndFeeParams { collateral: 0, leverage: 50_000, side: 1 }), Err(AdrenaError::InvalidArgument));
    assert_eq!(entry_position_size(&GetEntryPriceAndFeeParams { collateral: 100, leverage: 0, side: 1 }), Err(AdrenaError::InvalidArgument));
    assert_eq!(entry_position_size(&GetEntryPriceAndFeeParams { collateral: u64::MAX, leverage: 50_000, side: 1 }), Err(AdrenaError::MathOverflow));
}

#[test]
fn exit_fee_estimate() {
    let p = Position {
        owner: key(1),
        pool: key(2),
        custody: key(3),
        collateral_custody: key(3),
        id: 1,
        side: Side::Long,
        open_time: 0,
        update_time: 0,
        price: 1,
        size_usd: 1,
        borrow_size_usd: 0,
        collateral_usd: 1,
        collateral_amount: 1,
        locked_amount: 0,
        unrealized_interest_usd: 5,
        paid_interest_usd: 0,
        cumulative_interest_snapshot: 0,
        exit_fee_usd: 10,
        liquidation_fee_usd: 0,
        take_profit_is_set: false,
        take_profit_limit_price: 0,
        stop_loss_is_set: false,
        stop_loss_limit_price: 0,
        stop_loss_close_position_price: 0,
    };
    assert_eq!(exit_fee_usd_estimate(&p, 7), 22);
}

#[test]
fn swap_quotes() {
    assert_eq!(check_swap_quote(&GetSwapAmountAndFeesParams { amount_in: 0 }, key(1), key(2)), Err(AdrenaError::InvalidArgument));
    assert_eq!(check_swap_quote(&GetSwapAmountAndFeesParams { amount_in: 5 }, key(1), key(1)), Err(AdrenaError::RequireKeysNeqViolated));
    assert_eq!(check_swap_quote(&GetSwapAmountAndFeesParams { amount_in: 5 }, key(1), key(2)), Ok(()));
    assert_eq!(swap_leg(true, &GetOpenPositionWithSwapAmountAndFeesParams { collateral_amount: 100, leverage: 20_000, side: 1 }, 95, 2, 3), (95, 2, 3));
    assert_eq!(swap_leg(false, &GetOpenPositionWithSwapAmountAndFeesParams { collateral_amount: 100, leverage: 20_000, side: 1 }, 95, 2, 3), (100, 0, 0));
}

#[test]
fn limit_order_registration() {
    let mut b = book(true);
    b.escrowed_lamports = 10;
    assert_eq!(add_limit_order(&mut b, &order(1, 100, Some(101)), &long_custodies(), 8, 2_000_000), Err(AdrenaError::InvalidArgument));
    assert_eq!(b, LimitOrderBook { escrowed_lamports: 10, ..book(true) });
    assert_eq!(
        add_limit_order(&mut b, &order(1, 100, Some(90)), &long_custodies(), 8, 2_000_000),
        Ok(AddedLimitOrder { id: 8, escrowed_lamports: 2_000_000 + AUTOMATION_EXECUTION_FEE })
    );
    assert_eq!(b.escrowed_lamports, 10 + 2_000_000 + AUTOMATION_EXECUTION_FEE);
    assert_eq!(b.registered_limit_order_count, 1);
    assert_eq!(
        b.limit_orders,
        vec![LimitOrder { id: 8, trigger_price: 100, limit_price: 90, custody: key(5), collateral_custody: key(5), side: 1, amount: 100, leverage: 20_000 }]
    );
    let mut full = book(true);
    full.registered_limit_order_count = MAX_LIMIT_ORDERS;
    full.limit_orders = (1..=MAX_LIMIT_ORDERS as u64).map(|i| stored(i, key(5), 1)).collect();
    assert_eq!(add_limit_order(&mut full, &order(1, 100, None), &long_custodies(), 1_000, 0), Err(AdrenaError::LimitOrderBookFull));
    assert_eq!(full.limit_orders.len(), MAX_LIMIT_ORDERS as usize);
}

#[test]
fn opening_with_a_swap() {
    let params = OpenPositionWithSwapParams { price: 100, collateral: 50, leverage: 20_000 };
    assert_eq!(open_or_increase_position_with_swap_long(false, &params, true, 0, 10, None), Err(AdrenaError::InstructionNotAllowed));
    assert_eq!(
        open_or_increase_position_with_swap_long(true, &params, true, 100, 145, None),
        Ok(SwapOpening { side: Side::Long, collateral: 45, increase: false })
    );
    assert_eq!(
        open_or_increase_position_with_swap_short(true, &params, false, 100, 145, Some(3)),
        Ok(SwapOpening { side: Side::Short, collateral: 50, increase: true })
    );
    assert_eq!(open_or_increase_position_with_swap_short(false, &params, false, 0, 0, None), Err(AdrenaError::InstructionNotAllowed));
}

#[test]
fn cancelling_undoes_registering() {
    let mut b = book_with_orders();
    assert!(add_limit_order(&mut b, &order(1, 100, None), &long_custodies(), 8, 0).is_ok());
    assert_eq!(b.registered_limit_order_count, 4);
    let r = cancel_limit_order(&mut b, &CancelLimitOrderParams { id: 8 }, true, key(5), 1_000);
    assert_eq!(r, Ok(CancelledLimitOrder { refund: 100, escrow_sweep: None, book_closed: false }));
    assert_eq!(b.limit_orders, book_with_orders().limit_orders);
    assert_eq!(b.registered_limit_order_count, 3);
}

fn pricing() -> EntryPricing {
    EntryPricing { exit_fee: 3, liquidation_fee: 4, liquidation_price: 80 }
}

#[test]
fn entry_quotes() {
    let p = GetEntryPriceAndFeeParams { collateral: 100, leverage: 50_000, side: 1 };
    assert_eq!(
        get_entry_price_and_fee(&p, 123, &pricing()),
        Ok(NewPositionPricesAndFee { entry_price: 123, liquidation_price: 80, exit_fee: 3, liquidation_fee: 4, size: 500 })
    );
    let none = GetEntryPriceAndFeeParams { collateral: 100, leverage: 50_000, side: 0 };
    assert_eq!(get_entry_price_and_fee(&none, 123, &pricing()), Err(AdrenaError::InvalidArgument));
}

#[test]
fn quotes_of_an_opening_with_a_swap() {
    let p = GetOpenPositionWithSwapAmountAndFeesParams { collateral_amount: 100, leverage: 20_000, side: 1 };
    let swap = SwapQuote { amount_out: 95, fee_in: 2, fee_out: 3 };
    // With a swap: the swapped collateral is quoted, with the swap's fees.
    assert_eq!(
        get_open_position_with_swap_amount_and_fees(&p, true, Ok(swap), 123, &pricing()),
        Ok(OpenPositionWithSwapAmountAndFees {
            entry_price: 123,
            liquidation_price: 80,
            swap_fee_in: 2,
            swap_fee_out: 3,
            exit_fee: 3,
            liquidation_fee: 4,
            size: 190,
        })
    );
    // Without: the collateral as given, no swap fee.
    assert_eq!(
        get_open_position_with_swap_amount_and_fees(&p, false, Err(AdrenaError::MathOverflow), 123, &pricing()).map(|q| (q.size, q.swap_fee_in, q.swap_fee_out)),
        Ok((200, 0, 0))
    );
    assert_eq!(
        get_open_position_with_swap_amount_and_fees(&p, true, Err(AdrenaError::MathOverflow), 123, &pricing()).map(|q| q.size),
        Err(AdrenaError::MathOverflow)
    );
}
