use vstd::prelude::*;

use crate::error::AdrenaError;
use crate::key::Key;
use crate::position::Side;

verus! {

/// The side a number names in instructions: 1 is long, 2 is short; anything else names none.
pub open spec fn side_from_code(code: u8) -> Option<Side> {
    if code == 1 {
        Some(Side::Long)
    } else if code == 2 {
        Some(Side::Short)
    } else {
        None
    }
}

/// The side a number names in instructions.
pub fn decode_side(code: u8) -> (s: Option<Side>)
    ensures
        s == side_from_code(code),
{
    if code == 1 {
        Some(Side::Long)
    } else if code == 2 {
        Some(Side::Short)
    } else {
        None
    }
}

/// What a limit order asks for.
#[derive(Debug, Clone, Copy, PartialEq, Eq, Structural)]
pub struct AddLimitOrderParams {
    pub side: u8,
    pub trigger_price: u64,
    pub limit_price: Option<u64>,
    pub amount: u64,
    pub leverage: u32,
}

/// What the pool says of the custodies a limit order names.
#[derive(Debug, Clone, Copy, PartialEq, Eq, Structural)]
pub struct LimitOrderCustodies {
    pub custody_in_pool: bool,
    pub collateral_custody_in_pool: bool,
    /// The custody the order trades.
    pub custody: Key,
    /// The custody the order is collateralized in.
    pub collateral_custody: Key,
    pub custody_is_stable: bool,
    pub collateral_custody_is_stable: bool,
}

/// A limit order is well formed: it names a side; both custodies belong to the pool; a long
/// is collateralized in the traded token, which is not a stablecoin; a short is
/// collateralized in a stablecoin and trades a token that is not one; the trigger price,
/// amount and leverage are positive; and a limit price, where given, is positive and no
/// worse than the trigger (not above it for a long, not below it for a short).
pub open spec fn limit_order_valid(params: AddLimitOrderParams, custodies: LimitOrderCustodies) -> bool {
    let side = side_from_code(params.side);
    &&& side is Some
    &&& custodies.custody_in_pool
    &&& custodies.collateral_custody_in_pool
    &&& side == Some(Side::Long) ==> (custodies.custody == custodies.collateral_custody) && !custodies.custody_is_stable
    &&& side == Some(Side::Short) ==> !(custodies.custody == custodies.collateral_custody) && custodies.collateral_custody_is_stable
        && !custodies.custody_is_stable
    &&& params.trigger_price != 0
    &&& params.limit_price matches Some(l) ==> {
        &&& l != 0
        &&& side == Some(Side::Long) ==> l <= params.trigger_price
        &&& side == Some(Side::Short) ==> l >= params.trigger_price
    }
    &&& params.amount != 0
    &&& params.leverage != 0
}

/// An accepted limit order is collateralized as its side needs: it names a side; a long is
/// collateralized in the token it trades, which is not a stablecoin; a short is
/// collateralized in a stablecoin held in another custody than the token it trades, which is
/// not one; and its trigger price, amount and leverage are positive.
pub proof fn lemma_accepted_order_collateral(params: AddLimitOrderParams, custodies: LimitOrderCustodies)
    requires
        limit_order_valid(params, custodies),
    ensures
        params.side == 1 || params.side == 2,
        custodies.custody_in_pool && custodies.collateral_custody_in_pool,
        params.side == 1 ==> custodies.custody == custodies.collateral_custody && !custodies.custody_is_stable,
        params.side == 2 ==> custodies.collateral_custody_is_stable && !custodies.custody_is_stable
            && custodies.custody != custodies.collateral_custody,
        params.trigger_price != 0 && params.amount != 0 && params.leverage != 0,
{
}

/// Checks a new limit order; `InvalidArgument` where it is not well formed.
pub fn check_limit_order(params: &AddLimitOrderParams, custodies: &LimitOrderCustodies) -> (r: Result<(), AdrenaError>)
    ensures
        limit_order_valid(*params, *custodies) ==> r == Ok::<(), AdrenaError>(()),
        !limit_order_valid(*params, *custodies) ==> r == Err::<(), AdrenaError>(AdrenaError::InvalidArgument),
{
    let side = match decode_side(params.side) {
        Some(s) => s,
        None => {
            return Err(AdrenaError::InvalidArgument);
        },
    };
    if !custodies.custody_in_pool || !custodies.collateral_custody_in_pool {
        return Err(AdrenaError::InvalidArgument);
    }
    if side == Side::Long && (!(custodies.custody == custodies.collateral_custody) || custodies.custody_is_stable) {
        return Err(AdrenaError::InvalidArgument);
    }
    if side == Side::Short && (custodies.custody == custodies.collateral_custody) {
        return Err(AdrenaError::InvalidArgument);
    }
    if side == Side::Short && !custodies.collateral_custody_is_stable {
        return Err(AdrenaError::InvalidArgument);
    }
    if side == Side::Short && custodies.custody_is_stable {
        return Err(AdrenaError::InvalidArgument);
    }
    if params.trigger_price == 0 {
        return Err(AdrenaError::InvalidArgument);
    }
    if let Some(l) = params.limit_price {
        if l == 0 {
            return Err(AdrenaError::InvalidArgument);
        }
        if side == Side::Long && l > params.trigger_price {
            return Err(AdrenaError::InvalidArgument);
        }
        if side == Side::Short && l < params.trigger_price {
            return Err(AdrenaError::InvalidArgument);
        }
    }
    if params.amount == 0 {
        return Err(AdrenaError::InvalidArgument);
    }
    if params.leverage == 0 {
        return Err(AdrenaError::InvalidArgument);
    }
    Ok(())
}

/// The fee, in lamports, that an executor of an automated order earns.
pub const AUTOMATION_EXECUTION_FEE: u64 = 5_000_000u64;

/// Escrows the lamports a new limit order sets aside: the rent of the position it will open
/// and the executor's fee. Returns the lamports to move into the order book.
pub fn escrow_limit_order_lamports(escrowed_lamports: &mut u64, position_rent: u64) -> (amount: u64)
    requires
        position_rent + AUTOMATION_EXECUTION_FEE <= u64::MAX,
        *old(escrowed_lamports) + position_rent + AUTOMATION_EXECUTION_FEE <= u64::MAX,
    ensures
        amount == position_rent + AUTOMATION_EXECUTION_FEE,
        *final(escrowed_lamports) == *old(escrowed_lamports) + amount,
{
    let amount = position_rent + AUTOMATION_EXECUTION_FEE;
    *escrowed_lamports = *escrowed_lamports + amount;
    amount
}

/// Pays the executor of a limit order out of the escrowed lamports: what executing cost it
/// (its balance before less its balance after) plus the execution fee, and never more than
/// is escrowed. Returns the lamports to pay.
pub fn pay_executor(escrowed_lamports: &mut u64, caller_lamports_before: u64, caller_lamports_after: u64) -> (paid: u64)
    requires
        caller_lamports_before >= caller_lamports_after,
        caller_lamports_before - caller_lamports_after + AUTOMATION_EXECUTION_FEE <= u64::MAX,
    ensures
        paid == (if caller_lamports_before - caller_lamports_after + AUTOMATION_EXECUTION_FEE <= *old(escrowed_lamports) {
            caller_lamports_before - caller_lamports_after + AUTOMATION_EXECUTION_FEE
        } else {
            *old(escrowed_lamports) as int
        }),
        *final(escrowed_lamports) == *old(escrowed_lamports) - paid,
{
    let cost = (caller_lamports_before - caller_lamports_after) + AUTOMATION_EXECUTION_FEE;
    let paid = if cost <= *escrowed_lamports { cost } else { *escrowed_lamports };
    *escrowed_lamports = *escrowed_lamports - paid;
    paid
}

/// The collateral a position is opened or increased with after an optional swap: where a
/// swap was needed, what it brought into the trader's collateral account; otherwise what
/// the trader gave.
pub fn collateral_after_swap(
    swap_required: bool,
    collateral: u64,
    account_before_swap: u64,
    account_after_swap: u64,
) -> (amount: u64)
    requires
        swap_required ==> account_after_swap >= account_before_swap,
    ensures
        amount == (if swap_required { account_after_swap - account_before_swap } else { collateral as int }),
{
    if swap_required {
        account_after_swap - account_before_swap
    } else {
        collateral
    }
}

/// What opening or increasing a position with a swap asks for.
#[derive(Debug, Clone, Copy, PartialEq, Eq, Structural)]
pub struct OpenPositionWithSwapParams {
    pub price: u64,
    pub collateral: u64,
    /// In basis points: `BPS_POWER` is 1x.
    pub leverage: u32,
}

/// The position an opening with a swap leads to: its collateral once swapped, and whether
/// it increases the trader's existing position rather than opening a new one.
#[derive(Debug, Clone, Copy, PartialEq, Eq, Structural)]
pub struct SwapOpening {
    pub side: Side,
    pub collateral: u64,
    pub increase: bool,
}

/// The opening a trader asks for on `side` with a swap: trading and swapping must be allowed
/// (`InstructionNotAllowed`); the collateral is what the swap brought where one was needed
/// (see `collateral_after_swap`); an existing position of size `position_size_usd` that holds
/// some size is increased.
fn swap_opening(
    side: Side,
    allowed: bool,
    params: &OpenPositionWithSwapParams,
    swap_required: bool,
    account_before_swap: u64,
    account_after_swap: u64,
    position_size_usd: Option<u64>,
) -> (r: Result<SwapOpening, AdrenaError>)
    requires
        allowed && swap_required ==> account_after_swap >= account_before_swap,
    ensures
        !allowed ==> r == Err::<SwapOpening, AdrenaError>(AdrenaError::InstructionNotAllowed),
        allowed ==> r == Ok::<SwapOpening, AdrenaError>(SwapOpening {
            side,
            collateral: (if swap_required { account_after_swap - account_before_swap } else { params.collateral as int }) as u64,
            increase: position_size_usd matches Some(s) && s > 0,
        }),
{
    if !allowed {
        return Err(AdrenaError::InstructionNotAllowed);
    }
    let collateral = collateral_after_swap(swap_required, params.collateral, account_before_swap, account_after_swap);
    Ok(SwapOpening { side, collateral, increase: increases_existing_position(position_size_usd) })
}

/// Decides a long opening with a swap (see `swap_opening`); `allowed` says whether the pool
/// allows trading and swapping and the receiving custody allows trading. The caller then
/// opens or increases the long position at `params.price` and `params.leverage`.
pub fn open_or_increase_position_with_swap_long(
    allowed: bool,
    params: &OpenPositionWithSwapParams,
    swap_required: bool,
    account_before_swap: u64,
    account_after_swap: u64,
    position_size_usd: Option<u64>,
) -> (r: Result<SwapOpening, AdrenaError>)
    requires
        allowed && swap_required ==> account_after_swap >= account_before_swap,
    ensures
        !allowed ==> r == Err::<SwapOpening, AdrenaError>(AdrenaError::InstructionNotAllowed),
        allowed ==> r == Ok::<SwapOpening, AdrenaError>(SwapOpening {
            side: Side::Long,
            collateral: (if swap_required { account_after_swap - account_before_swap } else { params.collateral as int }) as u64,
            increase: position_size_usd matches Some(s) && s > 0,
        }),
{
    swap_opening(Side::Long, allowed, params, swap_required, account_before_swap, account_after_swap, position_size_usd)
}

/// Decides a short opening with a swap (see `swap_opening`), as for a long one.
pub fn open_or_increase_position_with_swap_short(
    allowed: bool,
    params: &OpenPositionWithSwapParams,
    swap_required: bool,
    account_before_swap: u64,
    account_after_swap: u64,
    position_size_usd: Option<u64>,
) -> (r: Result<SwapOpening, AdrenaError>)
    requires
        allowed && swap_required ==> account_after_swap >= account_before_swap,
    ensures
        !allowed ==> r == Err::<SwapOpening, AdrenaError>(AdrenaError::InstructionNotAllowed),
        allowed ==> r == Ok::<SwapOpening, AdrenaError>(SwapOpening {
            side: Side::Short,
            collateral: (if swap_required { account_after_swap - account_before_swap } else { params.collateral as int }) as u64,
            increase: position_size_usd matches Some(s) && s > 0,
        }),
{
    swap_opening(Side::Short, allowed, params, swap_required, account_before_swap, account_after_swap, position_size_usd)
}

/// Whether an order increases an existing position (one that holds some size) rather than
/// opening a new one. `position_size_usd` is the size of the position account, where it
/// holds a position.
pub fn increases_existing_position(position_size_usd: Option<u64>) -> (b: bool)
    ensures
        b == (position_size_usd matches Some(s) && s > 0),
{
    match position_size_usd {
        Some(s) => s > 0,
        None => false,
    }
}

/// What becomes of a collateral escrow once an order leaves the book: while another order
/// is escrowed in the same collateral it stays (`None`); otherwise it is closed, after what
/// is left in it (`Some` of that amount, possibly zero) has been swept out.
pub fn escrow_after_order_removed(still_escrowed: bool, escrow_amount: u64) -> (r: Option<u64>)
    ensures
        still_escrowed ==> r is None,
        !still_escrowed ==> r == Some(escrow_amount),
{
    if still_escrowed {
        None
    } else {
        Some(escrow_amount)
    }
}

/// Sweeps what is left in a closing collateral escrow into the pool's tokens.
pub fn sweep_escrow_into_pool(owned: &mut u64, escrow_amount: u64)
    requires
        *old(owned) + escrow_amount <= u64::MAX,
    ensures
        *final(owned) == *old(owned) + escrow_amount,
{
    *owned = *owned + escrow_amount;
}

/// A limit order as its book records it: its identifier, trigger and limit prices (a limit of
/// zero meaning none), the custody it trades, the custody holding its collateral, its side
/// code, its collateral amount and its leverage.
#[derive(Debug, Clone, Copy, PartialEq, Eq, Structural)]
pub struct LimitOrder {
    pub id: u64,
    pub trigger_price: u64,
    pub limit_price: u64,
    pub custody: Key,
    pub collateral_custody: Key,
    pub side: u8,
    pub amount: u64,
    pub leverage: u32,
}

/// How many orders a book can hold: as many as its count can number.
pub const MAX_LIMIT_ORDERS: u8 = 255u8;

/// A trader's book of limit orders: its owner, the lamports set aside to pay the orders'
/// executors, and the orders, of which it keeps the count.
#[derive(Debug, PartialEq, Eq)]
pub struct LimitOrderBook {
    pub owner: Key,
    pub initialized: bool,
    pub bump: u8,
    pub escrowed_lamports: u64,
    pub registered_limit_order_count: u8,
    pub limit_orders: Vec<LimitOrder>,
}

impl LimitOrderBook {
    /// The book counts the orders it holds, and no two of them share an identifier.
    pub open spec fn well_formed(&self) -> bool {
        &&& self.limit_orders@.len() == self.registered_limit_order_count
        &&& ids_distinct(self.limit_orders@)
    }
}

/// No two orders of `orders` share an identifier.
pub open spec fn ids_distinct(orders: Seq<LimitOrder>) -> bool {
    forall|i: int, j: int| 0 <= i < orders.len() && 0 <= j < orders.len() && i != j ==> orders[i].id != orders[j].id
}

/// Removing an order keeps the identifiers distinct, and leaves no order with its identifier.
proof fn lemma_remove_keeps_ids_distinct(orders: Seq<LimitOrder>, i: int)
    requires
        ids_distinct(orders),
        0 <= i < orders.len(),
    ensures
        ids_distinct(orders.remove(i)),
        forall|j: int| 0 <= j < orders.remove(i).len() ==> orders.remove(i)[j].id != orders[i].id,
{
    let r = orders.remove(i);
    assert forall|a: int, b: int| 0 <= a < r.len() && 0 <= b < r.len() && a != b implies r[a].id != r[b].id by {
        let oa = if a < i { a } else { a + 1 };
        let ob = if b < i { b } else { b + 1 };
        assert(r[a] == orders[oa]);
        assert(r[b] == orders[ob]);
    }
    assert forall|j: int| 0 <= j < r.len() implies r[j].id != orders[i].id by {
        let oj = if j < i { j } else { j + 1 };
        assert(r[j] == orders[oj]);
    }
}

/// A new, empty book of limit orders for `owner`.
pub fn init_limit_order_book(owner: Key, bump: u8) -> (book: LimitOrderBook)
    ensures
        book.well_formed(),
        book.owner == owner,
        book.initialized,
        book.bump == bump,
        book.escrowed_lamports == 0,
        book.registered_limit_order_count == 0,
        book.limit_orders@.len() == 0,
{
    LimitOrderBook {
        owner,
        initialized: true,
        bump,
        escrowed_lamports: 0,
        registered_limit_order_count: 0,
        limit_orders: Vec::new(),
    }
}

/// The book is back to a blank, uninitialized account (what a deleted book holds).
pub open spec fn book_is_blank(book: &LimitOrderBook) -> bool {
    &&& book.owner == Key::default_spec()
    &&& !book.initialized
    &&& book.bump == 0
    &&& book.escrowed_lamports == 0
    &&& book.registered_limit_order_count == 0
    &&& book.limit_orders@.len() == 0
}

/// Blanks a book whose last order has left, before its account is closed.
fn blank_book(book: &mut LimitOrderBook)
    ensures
        book_is_blank(final(book)),
{
    book.owner = Key::default_key();
    book.initialized = false;
    book.bump = 0;
    book.escrowed_lamports = 0;
    book.registered_limit_order_count = 0;
    book.limit_orders = Vec::new();
}

/// The first position in `orders` of the order with identifier `id`, if any.
pub open spec fn is_first_order_with_id(orders: Seq<LimitOrder>, id: u64, i: int) -> bool {
    &&& 0 <= i < orders.len()
    &&& orders[i].id == id
    &&& forall|j: int| 0 <= j < i ==> orders[j].id != id
}

/// Whether some order of `orders` is collateralized in `custody`.
pub open spec fn escrows_collateral(orders: Seq<LimitOrder>, custody: Key) -> bool {
    exists|j: int| 0 <= j < orders.len() && orders[j].collateral_custody == custody
}

/// The position of the order with identifier `id` in the book, if it holds one.
pub fn find_limit_order(book: &LimitOrderBook, id: u64) -> (r: Option<usize>)
    ensures
        r matches Some(i) ==> is_first_order_with_id(book.limit_orders@, id, i as int),
        r is None ==> forall|j: int| 0 <= j < book.limit_orders@.len() ==> book.limit_orders@[j].id != id,
{
    let mut i: usize = 0;
    while i < book.limit_orders.len()
        invariant
            i <= book.limit_orders@.len(),
            forall|j: int| 0 <= j < i ==> book.limit_orders@[j].id != id,
        decreases book.limit_orders@.len() - i,
    {
        if book.limit_orders[i].id == id {
            return Some(i);
        }
        i = i + 1;
    }
    None
}

/// Whether some order of the book is collateralized in `custody`.
pub fn is_collateral_escrowed(book: &LimitOrderBook, custody: Key) -> (b: bool)
    ensures
        b == escrows_collateral(book.limit_orders@, custody),
{
    let mut i: usize = 0;
    while i < book.limit_orders.len()
        invariant
            i <= book.limit_orders@.len(),
            forall|j: int| 0 <= j < i ==> book.limit_orders@[j].collateral_custody != custody,
        decreases book.limit_orders@.len() - i,
    {
        if book.limit_orders[i].collateral_custody == custody {
            return true;
        }
        i = i + 1;
    }
    false
}

/// The order a valid `params` records with identifier `id`.
pub open spec fn new_limit_order(params: AddLimitOrderParams, custodies: LimitOrderCustodies, id: u64) -> LimitOrder {
    LimitOrder {
        id,
        trigger_price: params.trigger_price,
        limit_price: match params.limit_price {
            Some(l) => l,
            None => 0,
        },
        custody: custodies.custody,
        collateral_custody: custodies.collateral_custody,
        side: params.side,
        amount: params.amount,
        leverage: params.leverage,
    }
}

/// What registering a limit order gives: its identifier and the lamports escrowed for it.
#[derive(Debug, Clone, Copy, PartialEq, Eq, Structural)]
pub struct AddedLimitOrder {
    pub id: u64,
    pub escrowed_lamports: u64,
}

/// Registers a limit order with identifier `id`, which the book does not hold yet (the pool
/// hands out each identifier once), in a trader's book: checks it (see
/// `limit_order_valid`; `InvalidArgument` otherwise); a book that already holds
/// `MAX_LIMIT_ORDERS` orders is full (`LimitOrderBookFull`); otherwise the book records the
/// order and escrows the rent of the position it will open (`position_rent`) and the
/// executor's fee. The caller moves the collateral into escrow and the lamports into the
/// book. An error leaves the book unchanged.
pub fn add_limit_order(
    book: &mut LimitOrderBook,
    params: &AddLimitOrderParams,
    custodies: &LimitOrderCustodies,
    id: u64,
    position_rent: u64,
) -> (r: Result<AddedLimitOrder, AdrenaError>)
    requires
        old(book).well_formed(),
        forall|j: int| 0 <= j < old(book).limit_orders@.len() ==> old(book).limit_orders@[j].id != id,
        limit_order_valid(*params, *custodies) ==> old(book).escrowed_lamports + position_rent + AUTOMATION_EXECUTION_FEE
            <= u64::MAX,
    ensures
        final(book).well_formed(),
        !limit_order_valid(*params, *custodies) ==> r == Err::<AddedLimitOrder, AdrenaError>(AdrenaError::InvalidArgument),
        limit_order_valid(*params, *custodies) && old(book).registered_limit_order_count == MAX_LIMIT_ORDERS ==> r
            == Err::<AddedLimitOrder, AdrenaError>(AdrenaError::LimitOrderBookFull),
        r is Err ==> *final(book) == *old(book),
        limit_order_valid(*params, *custodies) && old(book).registered_limit_order_count < MAX_LIMIT_ORDERS ==> {
            &&& r == Ok::<AddedLimitOrder, AdrenaError>(AddedLimitOrder {
                id,
                escrowed_lamports: (position_rent + AUTOMATION_EXECUTION_FEE) as u64,
            })
            &&& final(book).limit_orders@ == old(book).limit_orders@.push(new_limit_order(*params, *custodies, id))
            &&& final(book).registered_limit_order_count == old(book).registered_limit_order_count + 1
            &&& final(book).escrowed_lamports == old(book).escrowed_lamports + position_rent + AUTOMATION_EXECUTION_FEE
            &&& final(book).owner == old(book).owner
            &&& final(book).initialized == old(book).initialized
            &&& final(book).bump == old(book).bump
        },
{
    check_limit_order(params, custodies)?;
    if book.registered_limit_order_count == MAX_LIMIT_ORDERS {
        return Err(AdrenaError::LimitOrderBookFull);
    }
    let limit_price: u64 = match params.limit_price {
        Some(l) => l,
        None => 0,
    };
    book.limit_orders.push(LimitOrder {
        id,
        trigger_price: params.trigger_price,
        limit_price,
        custody: custodies.custody,
        collateral_custody: custodies.collateral_custody,
        side: params.side,
        amount: params.amount,
        leverage: params.leverage,
    });
    proof {
        let orders = book.limit_orders@;
        assert forall|a: int, b: int| 0 <= a < orders.len() && 0 <= b < orders.len() && a != b implies orders[a].id
            != orders[b].id by {
            if a < orders.len() - 1 && b < orders.len() - 1 {
                assert(orders[a] == old(book).limit_orders@[a]);
                assert(orders[b] == old(book).limit_orders@[b]);
            } else if a < orders.len() - 1 {
                assert(orders[a] == old(book).limit_orders@[a]);
            } else {
                assert(orders[b] == old(book).limit_orders@[b]);
            }
        }
    }
    book.registered_limit_order_count = book.registered_limit_order_count + 1;
    let escrowed = escrow_limit_order_lamports(&mut book.escrowed_lamports, position_rent);
    Ok(AddedLimitOrder { id, escrowed_lamports: escrowed })
}

/// Cancelling undoes registering: in a book with no order of identifier `id`, the order that
/// registering records under `id` is the one a cancel of `id` finds, and removing it leaves
/// the orders the book held before.
pub proof fn lemma_cancel_undoes_add(
    orders: Seq<LimitOrder>,
    params: AddLimitOrderParams,
    custodies: LimitOrderCustodies,
    id: u64,
)
    requires
        forall|j: int| 0 <= j < orders.len() ==> orders[j].id != id,
    ensures
        is_first_order_with_id(orders.push(new_limit_order(params, custodies, id)), id, orders.len() as int),
        orders.push(new_limit_order(params, custodies, id)).remove(orders.len() as int) == orders,
{
    assert(orders.push(new_limit_order(params, custodies, id)).remove(orders.len() as int) =~= orders);
}

/// Which limit order a cancel names.
#[derive(Debug, Clone, Copy, PartialEq, Eq, Structural)]
pub struct CancelLimitOrderParams {
    pub id: u64,
}

/// What a cancel of a limit order gives back: the collateral to return to the trader from
/// the escrow, what becomes of the escrow (see `escrow_after_order_removed`), and whether
/// the book, left empty, is to be closed.
#[derive(Debug, Clone, Copy, PartialEq, Eq, Structural)]
pub struct CancelledLimitOrder {
    pub refund: u64,
    pub escrow_sweep: Option<u64>,
    pub book_closed: bool,
}

/// The error a cancel of order `id` is answered with, in the order of the checks: the book
/// must be initialized, the id non-zero and the collateral custody one of the pool's
/// (`InvalidArgument`); the book must hold the order (`LimitOrderNotFound`); and the order must
/// be collateralized in `collateral_custody` (`InvalidArgument`).
pub open spec fn cancel_limit_order_error(
    book: &LimitOrderBook,
    id: u64,
    collateral_custody_in_pool: bool,
    collateral_custody: Key,
) -> Option<AdrenaError> {
    if !book.initialized || id == 0 || !collateral_custody_in_pool {
        Some(AdrenaError::InvalidArgument)
    } else if forall|j: int| 0 <= j < book.limit_orders@.len() ==> book.limit_orders@[j].id != id {
        Some(AdrenaError::LimitOrderNotFound)
    } else if exists|i: int| is_first_order_with_id(book.limit_orders@, id, i) && book.limit_orders@[i].collateral_custody
        != collateral_custody {
        Some(AdrenaError::InvalidArgument)
    } else {
        None
    }
}

/// Cancels limit order `params.id` of `book` (see `cancel_limit_order_error`): the order leaves
/// the book, and its collateral goes back to the trader from the escrow, which holds
/// `escrow_balance`; where no order left is collateralized in `collateral_custody`, what the
/// escrow keeps after the refund is swept out and the escrow closed; a book left empty is
/// blanked, to be closed. An error leaves the book unchanged.
pub fn cancel_limit_order(
    book: &mut LimitOrderBook,
    params: &CancelLimitOrderParams,
    collateral_custody_in_pool: bool,
    collateral_custody: Key,
    escrow_balance: u64,
) -> (r: Result<CancelledLimitOrder, AdrenaError>)
    requires
        old(book).well_formed(),
        forall|i: int| #[trigger] is_first_order_with_id(old(book).limit_orders@, params.id, i)
            ==> escrow_balance >= old(book).limit_orders@[i].amount,
    ensures
        final(book).well_formed(),
        r is Ok ==> forall|j: int| 0 <= j < final(book).limit_orders@.len() ==> final(book).limit_orders@[j].id != params.id,
        cancel_limit_order_error(old(book), params.id, collateral_custody_in_pool, collateral_custody) matches Some(e)
            ==> r == Err::<CancelledLimitOrder, AdrenaError>(e) && *final(book) == *old(book),
        cancel_limit_order_error(old(book), params.id, collateral_custody_in_pool, collateral_custody) is None ==> exists|i: int|
            #[trigger] is_first_order_with_id(old(book).limit_orders@, params.id, i) && {
            let order = old(book).limit_orders@[i];
            let remaining = old(book).limit_orders@.remove(i);
            let emptied = remaining.len() == 0;
            &&& r == Ok::<CancelledLimitOrder, AdrenaError>(CancelledLimitOrder {
                refund: order.amount,
                escrow_sweep: if escrows_collateral(remaining, collateral_custody) {
                    None
                } else {
                    Some((escrow_balance - order.amount) as u64)
                },
                book_closed: emptied,
            })
            &&& emptied ==> book_is_blank(final(book))
            &&& !emptied ==> {
                &&& final(book).limit_orders@ == remaining
                &&& final(book).registered_limit_order_count == old(book).registered_limit_order_count - 1
                &&& final(book).escrowed_lamports == old(book).escrowed_lamports
                &&& final(book).owner == old(book).owner
                &&& final(book).initialized == old(book).initialized
                &&& final(book).bump == old(book).bump
            }
        },
{
    if !book.initialized || params.id == 0 || !collateral_custody_in_pool {
        return Err(AdrenaError::InvalidArgument);
    }
    let index = match find_limit_order(book, params.id) {
        Some(i) => i,
        None => {
            return Err(AdrenaError::LimitOrderNotFound);
        },
    };
    let order = book.limit_orders[index];
    if order.collateral_custody != collateral_custody {
        proof {
            assert(is_first_order_with_id(old(book).limit_orders@, params.id, index as int));
        }
        return Err(AdrenaError::InvalidArgument);
    }
    proof {
        assert(is_first_order_with_id(old(book).limit_orders@, params.id, index as int));
        assert forall|i: int| is_first_order_with_id(old(book).limit_orders@, params.id, i)
            && old(book).limit_orders@[i].collateral_custody != collateral_custody implies false by {
            if i < index {
            } else if i > index {
            }
        }
    }
    book.limit_orders.remove(index);
    proof {
        lemma_remove_keeps_ids_distinct(old(book).limit_orders@, index as int);
    }
    book.registered_limit_order_count = book.registered_limit_order_count - 1;
    let still_escrowed = is_collateral_escrowed(book, collateral_custody);
    let escrow_sweep = escrow_after_order_removed(still_escrowed, escrow_balance - order.amount);
    let book_closed = book.registered_limit_order_count == 0;
    if book_closed {
        blank_book(book);
    }
    Ok(CancelledLimitOrder { refund: order.amount, escrow_sweep, book_closed })
}

/// Which limit order an execution names.
#[derive(Debug, Clone, Copy, PartialEq, Eq, Structural)]
pub struct ExecuteLimitOrderLongParams {
    pub id: u64,
}

/// What executing a limit order did: the order executed, whether it increased the trader's
/// existing position, the lamports paid to the executor, what became of the escrow (see
/// `escrow_after_order_removed`; what it kept was swept into the pool), and whether the
/// book, left empty, is to be closed.
#[derive(Debug, Clone, Copy, PartialEq, Eq, Structural)]
pub struct ExecutedLimitOrder {
    pub order: LimitOrder,
    pub increase: bool,
    pub executor_pay: u64,
    pub escrow_sweep: Option<u64>,
    pub book_closed: bool,
}

/// The lamports an executor is paid: what executing cost it plus the execution fee, never
/// more than the book escrows.
pub open spec fn executor_pay(escrowed: u64, caller_lamports_before: u64, caller_lamports_after: u64) -> u64 {
    let cost = caller_lamports_before - caller_lamports_after + AUTOMATION_EXECUTION_FEE;
    (if cost <= escrowed { cost } else { escrowed as int }) as u64
}

/// The error an execution of order `id` now is answered with, before the opening: trading
/// must be allowed (`InstructionNotAllowed`); the book must hold the order
/// (`LimitOrderNotFound`); and the order must be executable at the current price
/// (`executable`), be a long, and be collateralized in the custody it trades, `custody`
/// (`InstructionNotAllowed`).
pub open spec fn execute_limit_order_error(
    book: &LimitOrderBook,
    id: u64,
    trade_allowed: bool,
    executable: bool,
    custody: Key,
) -> Option<AdrenaError> {
    if !trade_allowed {
        Some(AdrenaError::InstructionNotAllowed)
    } else if forall|j: int| 0 <= j < book.limit_orders@.len() ==> book.limit_orders@[j].id != id {
        Some(AdrenaError::LimitOrderNotFound)
    } else if exists|i: int| #[trigger] is_first_order_with_id(book.limit_orders@, id, i) && !(executable
        && side_from_code(book.limit_orders@[i].side) == Some(Side::Long) && book.limit_orders@[i].collateral_custody
        == custody) {
        Some(AdrenaError::InstructionNotAllowed)
    } else {
        None
    }
}

/// Executes limit order `params.id` of `book`: checks the execution (see
/// `execute_limit_order_error`); `opening` is the outcome of opening (or, where the trader's
/// position of size `position_size_usd` holds some size, increasing) the long position with
/// the order's collateral and leverage at the current price, whose error is the execution's.
/// Then the order leaves the book; where no order left is collateralized in `custody`, what
/// its escrow holds (`escrow_balance`) is swept into the pool's tokens (`custody_owned`) and
/// the escrow closed; the executor, whose balance went from `caller_lamports_before` to
/// `caller_lamports_after`, is paid its cost and the execution fee from the escrowed lamports
/// (never more than they hold); and a book left empty is blanked, to be closed. An error
/// leaves the book and the pool unchanged.
pub fn execute_limit_order_long(
    book: &mut LimitOrderBook,
    params: &ExecuteLimitOrderLongParams,
    trade_allowed: bool,
    executable: bool,
    custody: Key,
    position_size_usd: Option<u64>,
    opening: Result<(), AdrenaError>,
    escrow_balance: u64,
    custody_owned: &mut u64,
    caller_lamports_before: u64,
    caller_lamports_after: u64,
) -> (r: Result<ExecutedLimitOrder, AdrenaError>)
    requires
        old(book).well_formed(),
        caller_lamports_before >= caller_lamports_after,
        caller_lamports_before - caller_lamports_after + AUTOMATION_EXECUTION_FEE <= u64::MAX,
        *old(custody_owned) + escrow_balance <= u64::MAX,
    ensures
        final(book).well_formed(),
        r is Ok ==> forall|j: int| 0 <= j < final(book).limit_orders@.len() ==> final(book).limit_orders@[j].id != params.id,
        execute_limit_order_error(old(book), params.id, trade_allowed, executable, custody) matches Some(e) ==> r
            == Err::<ExecutedLimitOrder, AdrenaError>(e),
        execute_limit_order_error(old(book), params.id, trade_allowed, executable, custody) is None && opening is Err
            ==> r == Err::<ExecutedLimitOrder, AdrenaError>(opening->Err_0),
        r is Err ==> *final(book) == *old(book) && *final(custody_owned) == *old(custody_owned),
        execute_limit_order_error(old(book), params.id, trade_allowed, executable, custody) is None && opening is Ok
            ==> exists|i: int| #[trigger] is_first_order_with_id(old(book).limit_orders@, params.id, i) && {
            let order = old(book).limit_orders@[i];
            let remaining = old(book).limit_orders@.remove(i);
            let emptied = remaining.len() == 0;
            let swept = !escrows_collateral(remaining, custody);
            let pay = executor_pay(old(book).escrowed_lamports, caller_lamports_before, caller_lamports_after);
            &&& r == Ok::<ExecutedLimitOrder, AdrenaError>(ExecutedLimitOrder {
                order,
                increase: position_size_usd matches Some(s) && s > 0,
                executor_pay: pay,
                escrow_sweep: if swept { Some(escrow_balance) } else { None },
                book_closed: emptied,
            })
            &&& *final(custody_owned) == if swept { *old(custody_owned) + escrow_balance } else { *old(custody_owned) as int }
            &&& emptied ==> book_is_blank(final(book))
            &&& !emptied ==> {
                &&& final(book).limit_orders@ == remaining
                &&& final(book).registered_limit_order_count == old(book).registered_limit_order_count - 1
                &&& final(book).escrowed_lamports == old(book).escrowed_lamports - pay
                &&& final(book).owner == old(book).owner
                &&& final(book).initialized == old(book).initialized
                &&& final(book).bump == old(book).bump
            }
        },
{
    if !trade_allowed {
        return Err(AdrenaError::InstructionNotAllowed);
    }
    let index = match find_limit_order(book, params.id) {
        Some(i) => i,
        None => {
            return Err(AdrenaError::LimitOrderNotFound);
        },
    };
    proof {
        assert(is_first_order_with_id(old(book).limit_orders@, params.id, index as int));
        assert forall|i: int| #[trigger] is_first_order_with_id(old(book).limit_orders@, params.id, i) implies i == index by {
            if i < index {
            } else if i > index {
            }
        }
    }
    let order = book.limit_orders[index];
    let side = decode_side(order.side);
    if !(executable && side == Some(Side::Long) && order.collateral_custody == custody) {
        return Err(AdrenaError::InstructionNotAllowed);
    }
    opening?;
    let increase = increases_existing_position(position_size_usd);
    book.limit_orders.remove(index);
    proof {
        lemma_remove_keeps_ids_distinct(old(book).limit_orders@, index as int);
    }
    book.registered_limit_order_count = book.registered_limit_order_count - 1;
    let still_escrowed = is_collateral_escrowed(book, custody);
    let escrow_sweep = escrow_after_order_removed(still_escrowed, escrow_balance);
    if !still_escrowed {
        sweep_escrow_into_pool(custody_owned, escrow_balance);
    }
    let executor_pay = pay_executor(&mut book.escrowed_lamports, caller_lamports_before, caller_lamports_after);
    let book_closed = book.registered_limit_order_count == 0;
    if book_closed {
        blank_book(book);
    }
    Ok(ExecutedLimitOrder { order, increase, executor_pay, escrow_sweep, book_closed })
}

} // verus!
