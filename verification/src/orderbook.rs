//! The resting orders of one instrument and their matching against market trades.
//!
//! A book keeps its bids and asks in the order in which they were admitted. A
//! market trade is matched against one side only: it consumes the best-priced
//! resting order first, the earliest among orders at one price, and goes on
//! while it has amount left and the best order still crosses its price.
use vstd::prelude::*;
use crate::error::ExchangeError;
use crate::fixed::{fee_amount, lemma_fee_bounded, lemma_notional_monotonic, mul_fixed, notional, SCALE};
use crate::instrument::Side;
use crate::order::{clone_cid, Open, Order, OrderId, OrderInstruction, OrderRole, RequestOpen};
use crate::trade::{side_named, ClientTrade, ClientTradeId, MarketTrade};

verus! {

/// For an order resting on `side`, the price `a` is strictly better than `b`:
/// higher for a bid, lower for an ask.
pub open spec fn better(side: Side, a: i64, b: i64) -> bool {
    match side {
        Side::Buy => a > b,
        Side::Sell => a < b,
    }
}

/// An order resting on `side` at `order_price` can trade at `market_price`.
pub open spec fn crosses(side: Side, order_price: i64, market_price: i64) -> bool {
    match side {
        Side::Buy => order_price >= market_price,
        Side::Sell => order_price <= market_price,
    }
}

/// The place of the best-priced order of a non-empty side, the earliest
/// admitted among those at the best price.
pub open spec fn best_index(orders: Seq<Order<Open>>, side: Side) -> int
    decreases orders.len(),
{
    if orders.len() <= 1 {
        0
    } else {
        let before = best_index(orders.drop_last(), side);
        if better(side, orders.last().state.price, orders[before].state.price) {
            orders.len() - 1
        } else {
            before
        }
    }
}

/// [`best_index`] is in range; no order has a better price than the order
/// there, and every order before it has a worse one.
pub proof fn lemma_best_index(orders: Seq<Order<Open>>, side: Side)
    requires
        orders.len() > 0,
    ensures
        0 <= best_index(orders, side) < orders.len(),
        forall|j: int|
            0 <= j < orders.len() ==> !better(
                side,
                (#[trigger] orders[j]).state.price,
                orders[best_index(orders, side)].state.price,
            ),
        forall|j: int|
            0 <= j < best_index(orders, side) ==> better(
                side,
                orders[best_index(orders, side)].state.price,
                (#[trigger] orders[j]).state.price,
            ),
    decreases orders.len(),
{
    if orders.len() > 1 {
        let front = orders.drop_last();
        lemma_best_index(front, side);
        assert forall|j: int| 0 <= j < front.len() implies front[j] == orders[j] by {}
        let before = best_index(front, side);
        let b = best_index(orders, side);
        assert forall|j: int| 0 <= j < orders.len() implies !better(
            side,
            (#[trigger] orders[j]).state.price,
            orders[b].state.price,
        ) by {
            if j < front.len() {
                assert(!better(side, front[j].state.price, front[before].state.price));
            }
        }
        assert forall|j: int| 0 <= j < b implies better(
            side,
            orders[b].state.price,
            (#[trigger] orders[j]).state.price,
        ) by {
            if j < before {
                assert(better(side, front[before].state.price, front[j].state.price));
            }
        }
    }
}

/// `orders` can be one side of a book: every order is on `side` and may rest,
/// and the ids grow strictly in the order of admission.
pub open spec fn side_wf(orders: Seq<Order<Open>>, side: Side) -> bool {
    &&& forall|i: int|
        0 <= i < orders.len() ==> (#[trigger] orders[i]).side == side && orders[i].state.resting()
    &&& forall|i: int, j: int|
        0 <= i < j < orders.len() ==> (#[trigger] orders[i]).state.id.0 < (
        #[trigger] orders[j]).state.id.0
}

/// Whether `order` may rest in a book.
pub fn may_rest(order: &Order<Open>) -> (r: bool)
    ensures
        r == order.state.resting(),
{
    order.state.price > 0 && 0 <= order.state.filled_quantity && order.state.filled_quantity < order.state.size
        && mul_fixed(order.state.price, order.state.size).is_some()
}

/// Whether `orders` can be one side of a book; see [`side_wf`].
pub fn check_side(orders: &Vec<Order<Open>>, side: Side) -> (r: bool)
    ensures
        r == side_wf(orders@, side),
{
    let mut i: usize = 0;
    while i < orders.len()
        invariant
            i <= orders@.len(),
            forall|k: int| 0 <= k < i ==> (#[trigger] orders@[k]).side == side && orders@[k].state.resting(),
            forall|a: int, b: int|
                0 <= a < b < i ==> (#[trigger] orders@[a]).state.id.0 < (#[trigger] orders@[b]).state.id.0,
        decreases orders@.len() - i,
    {
        let on_side = match (orders[i].side, side) {
            (Side::Buy, Side::Buy) | (Side::Sell, Side::Sell) => true,
            _ => false,
        };
        if !on_side || !may_rest(&orders[i]) {
            return false;
        }
        if i > 0 && orders[i - 1].state.id.0 >= orders[i].state.id.0 {
            return false;
        }
        proof {
            assert forall|a: int, b: int| 0 <= a < b < i + 1 implies (#[trigger] orders@[a]).state.id.0 < (
            #[trigger] orders@[b]).state.id.0 by {
                if b == i && a < i - 1 {
                    assert(orders@[a].state.id.0 < orders@[i - 1].state.id.0);
                }
            }
        }
        i += 1;
    }
    true
}

/// Whether every id on the side is below `bound`.
pub fn check_ids_below(orders: &Vec<Order<Open>>, bound: u64) -> (r: bool)
    ensures
        r == ids_below(orders@, bound as int),
{
    let mut i: usize = 0;
    while i < orders.len()
        invariant
            i <= orders@.len(),
            forall|k: int| 0 <= k < i ==> (#[trigger] orders@[k]).state.id.0 < bound,
        decreases orders@.len() - i,
    {
        if orders[i].state.id.0 >= bound {
            return false;
        }
        i += 1;
    }
    true
}

/// The order after `fill` more units of it were filled.
pub open spec fn filled_by(order: Order<Open>, fill: int) -> Order<Open> {
    Order {
        state: Open { filled_quantity: (order.state.filled_quantity + fill) as i64, ..order.state },
        ..order
    }
}

/// The client trade that records a fill of `fill` units of `order`, executed
/// at the order's own price at time `timestamp`, with the fee charged at `fee_rate`.
pub open spec fn fill_trade(order: Order<Open>, fill: int, fee_rate: i64, timestamp: i64) -> ClientTrade {
    ClientTrade {
        exchange: order.exchange,
        timestamp,
        trade_id: ClientTradeId(order.state.id.0),
        order_id: order.state.id,
        cid: order.cid,
        instrument: order.instrument,
        side: order.side,
        price: order.state.price,
        size: fill as i64,
        fees: fee_amount(order.state.price as int, fill, fee_rate as int) as i64,
    }
}

/// The smaller of two amounts.
pub open spec fn min_amount(a: int, b: int) -> int {
    if a < b {
        a
    } else {
        b
    }
}

/// What matching a market trade of `amount` at `price` does to one side of a
/// book: the orders left on the side, and the client trades in the order in
/// which they happen.
///
/// While amount is left and the best order crosses `price`, the best order is
/// filled by the smaller of the amount left and what remains of the order. An
/// order filled completely leaves the side; one filled in part stays in its place.
pub open spec fn match_side(
    orders: Seq<Order<Open>>,
    side: Side,
    amount: int,
    price: i64,
    fee_rate: i64,
    timestamp: i64,
) -> (Seq<Order<Open>>, Seq<ClientTrade>)
    decreases orders.len(),
    via match_side_shrinks
{
    if amount <= 0 || orders.len() == 0 {
        (orders, Seq::empty())
    } else {
        let b = best_index(orders, side);
        let best = orders[b];
        if !crosses(side, best.state.price, price) {
            (orders, Seq::empty())
        } else {
            let fill = min_amount(amount, best.state.remaining());
            let trade = fill_trade(best, fill, fee_rate, timestamp);
            if fill == best.state.remaining() {
                let rest = match_side(orders.remove(b), side, amount - fill, price, fee_rate, timestamp);
                (rest.0, seq![trade] + rest.1)
            } else {
                (orders.update(b, filled_by(best, fill)), seq![trade])
            }
        }
    }
}

#[via_fn]
proof fn match_side_shrinks(
    orders: Seq<Order<Open>>,
    side: Side,
    amount: int,
    price: i64,
    fee_rate: i64,
    timestamp: i64,
) {
    if orders.len() > 0 {
        lemma_best_index(orders, side);
    }
}

/// The place of the best-priced order of a non-empty side.
pub fn best_position(orders: &Vec<Order<Open>>, side: Side) -> (r: usize)
    requires
        orders@.len() > 0,
    ensures
        r == best_index(orders@, side),
        r < orders@.len(),
{
    let mut best: usize = 0;
    let mut i: usize = 1;
    while i < orders.len()
        invariant
            1 <= i <= orders@.len(),
            best < i,
            best == best_index(orders@.take(i as int), side),
        decreases orders@.len() - i,
    {
        let candidate: i64 = orders[i].state.price;
        let held: i64 = orders[best].state.price;
        let improves = match side {
            Side::Buy => candidate > held,
            Side::Sell => candidate < held,
        };
        proof {
            assert(orders@.take(i + 1).drop_last() =~= orders@.take(i as int));
        }
        if improves {
            best = i;
        }
        i += 1;
    }
    assert(orders@.take(orders@.len() as int) =~= orders@);
    best
}

/// Matches a market trade of `amount` at `price` against one side of a book,
/// takes the filled orders off the side and returns the client trades.
pub fn match_resting(
    orders: &mut Vec<Order<Open>>,
    side: Side,
    amount: i64,
    price: i64,
    fee_rate: i64,
    timestamp: i64,
) -> (trades: Vec<ClientTrade>)
    requires
        side_wf(old(orders)@, side),
        0 <= fee_rate <= SCALE,
    ensures
        (final(orders)@, trades@) == match_side(old(orders)@, side, amount as int, price, fee_rate, timestamp),
        side_wf(final(orders)@, side),
{
    let ghost start = orders@;
    let ghost goal = match_side(start, side, amount as int, price, fee_rate, timestamp);
    let mut trades: Vec<ClientTrade> = Vec::new();
    let mut left: i64 = amount;
    let mut done = false;
    while !done
        invariant
            side_wf(orders@, side),
            0 <= fee_rate <= SCALE,
            goal.0 == match_side(orders@, side, left as int, price, fee_rate, timestamp).0,
            goal.1 == trades@ + match_side(orders@, side, left as int, price, fee_rate, timestamp).1,
            done ==> match_side(orders@, side, left as int, price, fee_rate, timestamp) == (
                orders@,
                Seq::<ClientTrade>::empty(),
            ),
        decreases (if done { 0 } else { 1 + orders@.len() }),
    {
        if left <= 0 || orders.len() == 0 {
            done = true;
        } else {
            let b = best_position(orders, side);
            let ghost before = orders@;
            let ghost best = before[b as int];
            let order_price: i64 = orders[b].state.price;
            let crossing = match side {
                Side::Buy => order_price >= price,
                Side::Sell => order_price <= price,
            };
            if !crossing {
                done = true;
            } else {
                let open: i64 = orders[b].state.size - orders[b].state.filled_quantity;
                let fill: i64 = if left < open { left } else { open };
                proof {
                    lemma_notional_monotonic(order_price as int, fill as int, best.state.size as int);
                    lemma_fee_bounded(notional(order_price as int, fill as int), fee_rate as int);
                }
                let value: i64 = mul_fixed(order_price, fill).unwrap();
                let fees: i64 = mul_fixed(value, fee_rate).unwrap();
                let trade = ClientTrade {
                    exchange: orders[b].exchange,
                    timestamp,
                    trade_id: ClientTradeId(orders[b].state.id.0),
                    order_id: orders[b].state.id,
                    cid: clone_cid(&orders[b].cid),
                    instrument: orders[b].instrument.clone(),
                    side: orders[b].side,
                    price: order_price,
                    size: fill,
                    fees,
                };
                if fill == open {
                    let _ = orders.remove(b);
                    let ghost tail = match_side(orders@, side, left - fill, price, fee_rate, timestamp);
                    assert(match_side(before, side, left as int, price, fee_rate, timestamp) == (
                        tail.0,
                        seq![trade] + tail.1,
                    ));
                    left = left - fill;
                    proof {
                        lemma_remove_keeps_side(before, side, b as int);
                    }
                } else {
                    orders[b].state.filled_quantity = orders[b].state.filled_quantity + fill;
                    left = 0;
                    done = true;
                    proof {
                        lemma_update_keeps_side(before, side, b as int, fill as int);
                    }
                }
                trades.push(trade);
            }
        }
    }
    trades
}

/// Taking an order off a side leaves a side.
pub proof fn lemma_remove_keeps_side(orders: Seq<Order<Open>>, side: Side, at: int)
    requires
        side_wf(orders, side),
        0 <= at < orders.len(),
    ensures
        side_wf(orders.remove(at), side),
{
    let rest = orders.remove(at);
    assert forall|i: int| 0 <= i < rest.len() implies (#[trigger] rest[i]).side == side
        && rest[i].state.resting() by {
        if i < at {
            assert(rest[i] == orders[i]);
        } else {
            assert(rest[i] == orders[i + 1]);
        }
    }
    assert forall|i: int, j: int| 0 <= i < j < rest.len() implies (#[trigger] rest[i]).state.id.0 < (
    #[trigger] rest[j]).state.id.0 by {
        let oi = if i < at { i } else { i + 1 };
        let oj = if j < at { j } else { j + 1 };
        assert(rest[i] == orders[oi]);
        assert(rest[j] == orders[oj]);
    }
}

/// Filling an order in part, short of its size, leaves a side.
pub proof fn lemma_update_keeps_side(orders: Seq<Order<Open>>, side: Side, at: int, fill: int)
    requires
        side_wf(orders, side),
        0 <= at < orders.len(),
        0 <= fill < orders[at].state.remaining(),
    ensures
        side_wf(orders.update(at, filled_by(orders[at], fill)), side),
{
    let next = orders.update(at, filled_by(orders[at], fill));
    assert forall|i: int| 0 <= i < next.len() implies (#[trigger] next[i]).side == side
        && next[i].state.resting() by {
        if i != at {
            assert(next[i] == orders[i]);
        }
    }
    assert forall|i: int, j: int| 0 <= i < j < next.len() implies (#[trigger] next[i]).state.id.0 < (
    #[trigger] next[j]).state.id.0 by {
        assert(next[i].state.id == orders[i].state.id);
    }
}

/// For an order on `side`, `price` stays clear of the current price: below it
/// for a buy, above it for a sell.
pub open spec fn passive(side: Side, price: i64, current_price: i64) -> bool {
    match side {
        Side::Buy => price < current_price,
        Side::Sell => price > current_price,
    }
}

/// A post-only order that would trade at once against the current price.
pub open spec fn post_only_violation(
    instruction: OrderInstruction,
    side: Side,
    price: i64,
    current_price: i64,
) -> bool {
    instruction == OrderInstruction::PostOnly && !passive(side, price, current_price)
}

/// The role that an order gets on admission. Market, immediate-or-cancel and
/// fill-or-kill orders take; a post-only order makes; any other order makes
/// when its price stays clear of the current price and takes otherwise.
pub open spec fn role_for(
    instruction: OrderInstruction,
    side: Side,
    price: i64,
    current_price: i64,
) -> OrderRole {
    match instruction {
        OrderInstruction::Market | OrderInstruction::ImmediateOrCancel | OrderInstruction::FillOrKill => OrderRole::Taker,
        OrderInstruction::PostOnly => OrderRole::Maker,
        _ => if passive(side, price, current_price) {
            OrderRole::Maker
        } else {
            OrderRole::Taker
        },
    }
}

/// Decides the role of a request against the current price;
/// `PostOnlyViolation` exactly for a post-only order that would trade at once.
pub fn determine_role(order: &Order<RequestOpen>, current_price: i64) -> (r: Result<OrderRole, ExchangeError>)
    ensures
        post_only_violation(order.instruction, order.side, order.state.price, current_price) ==> r is Err
            && r->Err_0 == ExchangeError::PostOnlyViolation,
        !post_only_violation(order.instruction, order.side, order.state.price, current_price) ==> r == Ok::<
            OrderRole,
            ExchangeError,
        >(role_for(order.instruction, order.side, order.state.price, current_price)),
{
    let clear = match order.side {
        Side::Buy => order.state.price < current_price,
        Side::Sell => order.state.price > current_price,
    };
    match order.instruction {
        OrderInstruction::Market | OrderInstruction::ImmediateOrCancel | OrderInstruction::FillOrKill => Ok(
            OrderRole::Taker,
        ),
        OrderInstruction::PostOnly => {
            if clear {
                Ok(OrderRole::Maker)
            } else {
                Err(
                    ExchangeError::PostOnlyViolation,
                )
            }
        },
        _ => {
            if clear {
                Ok(OrderRole::Maker)
            } else {
                Ok(OrderRole::Taker)
            }
        },
    }
}

/// Every id on the side is below `bound`.
pub open spec fn ids_below(orders: Seq<Order<Open>>, bound: int) -> bool {
    forall|i: int| 0 <= i < orders.len() ==> (#[trigger] orders[i]).state.id.0 < bound
}

/// The resting order that `request` becomes when admitted under `id` with `role`.
pub open spec fn opened(request: Order<RequestOpen>, id: OrderId, role: OrderRole) -> Order<Open> {
    Order {
        instruction: request.instruction,
        exchange: request.exchange,
        instrument: request.instrument,
        timestamp: request.timestamp,
        cid: request.cid,
        side: request.side,
        state: Open {
            id,
            price: request.state.price,
            size: request.state.size,
            filled_quantity: 0,
            order_role: role,
        },
    }
}

/// The side that a market trade with the given aggressor is matched against,
/// when that side has orders: asks for a buying aggressor, bids for a selling one.
pub open spec fn matching_side(bids: Seq<Order<Open>>, asks: Seq<Order<Open>>, aggressor: Option<Side>) -> Option<
    Side,
> {
    match aggressor {
        Some(Side::Buy) => if asks.len() > 0 {
            Some(Side::Sell)
        } else {
            None
        },
        Some(Side::Sell) => if bids.len() > 0 {
            Some(Side::Buy)
        } else {
            None
        },
        None => None,
    }
}

/// The resting orders of one instrument.
///
/// `batch_id` is the counter that numbers the orders: the next id to be given.
#[derive(Debug, PartialEq, Eq)]
pub struct InstrumentOrders {
    pub batch_id: u64,
    pub bids: Vec<Order<Open>>,
    pub asks: Vec<Order<Open>>,
}

impl Clone for InstrumentOrders {
    fn clone(&self) -> (r: Self)
        ensures
            r.batch_id == self.batch_id,
            r.bids@ == self.bids@,
            r.asks@ == self.asks@,
    {
        let bids = self.bids.clone();
        let asks = self.asks.clone();
        InstrumentOrders { batch_id: self.batch_id, bids, asks }
    }
}

impl InstrumentOrders {
    /// The book is well formed: bids are buys and asks are sells, each order may
    /// rest, and ids grow in the order of admission and stay below the counter.
    pub open spec fn wf(&self) -> bool {
        &&& side_wf(self.bids@, Side::Buy)
        &&& side_wf(self.asks@, Side::Sell)
        &&& ids_below(self.bids@, self.batch_id as int)
        &&& ids_below(self.asks@, self.batch_id as int)
        &&& forall|i: int, j: int|
            0 <= i < self.bids@.len() && 0 <= j < self.asks@.len() ==> (#[trigger] self.bids@[i]).state.id
                != (#[trigger] self.asks@[j]).state.id
    }

    /// Whether the book is well formed.
    pub fn is_wf(&self) -> (r: bool)
        ensures
            r == self.wf(),
    {
        if !check_side(&self.bids, Side::Buy) || !check_side(&self.asks, Side::Sell) {
            return false;
        }
        if !check_ids_below(&self.bids, self.batch_id) || !check_ids_below(&self.asks, self.batch_id) {
            return false;
        }
        let mut i: usize = 0;
        while i < self.bids.len()
            invariant
                i <= self.bids@.len(),
                forall|a: int, b: int|
                    0 <= a < i && 0 <= b < self.asks@.len() ==> (#[trigger] self.bids@[a]).state.id != (
                    #[trigger] self.asks@[b]).state.id,
            decreases self.bids@.len() - i,
        {
            let mut j: usize = 0;
            while j < self.asks.len()
                invariant
                    i < self.bids@.len(),
                    j <= self.asks@.len(),
                    forall|a: int, b: int|
                        0 <= a < i && 0 <= b < self.asks@.len() ==> (#[trigger] self.bids@[a]).state.id != (
                        #[trigger] self.asks@[b]).state.id,
                    forall|b: int|
                        0 <= b < j ==> self.bids@[i as int].state.id != (#[trigger] self.asks@[b]).state.id,
                decreases self.asks@.len() - j,
            {
                if self.bids[i].state.id.0 == self.asks[j].state.id.0 {
                    return false;
                }
                j += 1;
            }
            i += 1;
        }
        true
    }

    /// Whether `order` may join the book; see [`Self::admits`].
    pub fn can_admit(&self, order: &Order<Open>) -> (r: bool)
        ensures
            r == self.admits(*order),
    {
        may_rest(order) && order.state.id.0 < u64::MAX && check_ids_below(&self.bids, order.state.id.0)
            && check_ids_below(&self.asks, order.state.id.0)
    }

    /// The orders of the given side.
    pub open spec fn side(&self, side: Side) -> Seq<Order<Open>> {
        match side {
            Side::Buy => self.bids@,
            Side::Sell => self.asks@,
        }
    }

    /// All resting orders: the bids, then the asks.
    pub open spec fn all(&self) -> Seq<Order<Open>> {
        self.bids@ + self.asks@
    }

    /// An empty book whose counter starts at one: zero is the id of no order.
    pub fn new() -> (r: Self)
        ensures
            r.wf(),
            r.batch_id == 1,
            r.bids@.len() == 0,
            r.asks@.len() == 0,
    {
        InstrumentOrders { batch_id: 1, bids: Vec::new(), asks: Vec::new() }
    }

    /// Gives out the next order id and advances the counter. `None` when the
    /// counter has reached its last value; the book is then unchanged.
    pub fn assign_id(&mut self) -> (r: Option<OrderId>)
        ensures
            final(self).bids == old(self).bids,
            final(self).asks == old(self).asks,
            old(self).batch_id < u64::MAX ==> r == Some(OrderId(old(self).batch_id)) && final(self).batch_id
                == old(self).batch_id + 1,
            old(self).batch_id == u64::MAX ==> r is None && final(self).batch_id == old(self).batch_id,
            old(self).wf() ==> final(self).wf(),
    {
        if self.batch_id == u64::MAX {
            None
        } else {
            let id = OrderId(self.batch_id);
            self.batch_id = self.batch_id + 1;
            Some(id)
        }
    }

    /// Turns a request into a resting order under the next id, with nothing
    /// filled and the given role. `None`, with the book unchanged, when the ids
    /// are used up.
    pub fn build_order_open(&mut self, request: Order<RequestOpen>, role: OrderRole) -> (r: Option<Order<Open>>)
        ensures
            final(self).bids == old(self).bids,
            final(self).asks == old(self).asks,
            old(self).batch_id < u64::MAX ==> r == Some(opened(request, OrderId(old(self).batch_id), role))
                && final(self).batch_id == old(self).batch_id + 1,
            old(self).batch_id == u64::MAX ==> r is None && final(self).batch_id == old(self).batch_id,
            old(self).wf() ==> final(self).wf(),
    {
        match self.assign_id() {
            None => None,
            Some(id) => Some(
                Order {
                    instruction: request.instruction,
                    exchange: request.exchange,
                    instrument: request.instrument,
                    timestamp: request.timestamp,
                    cid: request.cid,
                    side: request.side,
                    state: Open {
                        id,
                        price: request.state.price,
                        size: request.state.size,
                        filled_quantity: 0,
                        order_role: role,
                    },
                },
            ),
        }
    }

    /// `order` may join the book: it may rest, and its id is above every id in the book.
    pub open spec fn admits(&self, order: Order<Open>) -> bool {
        &&& order.state.resting()
        &&& order.state.id.0 < u64::MAX
        &&& ids_below(self.bids@, order.state.id.0 as int)
        &&& ids_below(self.asks@, order.state.id.0 as int)
    }

    /// Appends `order` to the side that its own side names. The counter moves
    /// past the order's id if it was not past it already.
    pub fn add_order_open(&mut self, order: Order<Open>)
        requires
            old(self).wf(),
            old(self).admits(order),
        ensures
            final(self).wf(),
            order.side == Side::Buy ==> final(self).bids@ == old(self).bids@.push(order) && final(self).asks
                == old(self).asks,
            order.side == Side::Sell ==> final(self).asks@ == old(self).asks@.push(order) && final(self).bids
                == old(self).bids,
            final(self).batch_id == (if old(self).batch_id > order.state.id.0 {
                old(self).batch_id
            } else {
                (order.state.id.0 + 1) as u64
            }),
    {
        if self.batch_id <= order.state.id.0 {
            self.batch_id = order.state.id.0 + 1;
        }
        match order.side {
            Side::Buy => {
                self.bids.push(order);
            },
            Side::Sell => {
                self.asks.push(order);
            },
        }
    }

    /// A copy of every resting order: the bids, then the asks.
    pub fn fetch_all(&self) -> (r: Vec<Order<Open>>)
        ensures
            r@ == self.all(),
    {
        let mut listing: Vec<Order<Open>> = Vec::new();
        let mut i: usize = 0;
        while i < self.bids.len()
            invariant
                i <= self.bids@.len(),
                listing@ == self.bids@.take(i as int),
            decreases self.bids@.len() - i,
        {
            listing.push(self.bids[i].clone());
            i += 1;
        }
        let mut j: usize = 0;
        while j < self.asks.len()
            invariant
                j <= self.asks@.len(),
                listing@ == self.bids@ + self.asks@.take(j as int),
            decreases self.asks@.len() - j,
        {
            listing.push(self.asks[j].clone());
            j += 1;
        }
        listing
    }

    /// The side of the book that `market_trade` is matched against, if that
    /// side has orders and the trade names its aggressor.
    pub fn determine_matching_side(&self, market_trade: &MarketTrade) -> (r: Option<Side>)
        ensures
            r == matching_side(self.bids@, self.asks@, side_named(market_trade.side@)),
    {
        match market_trade.parse_side() {
            Some(Side::Buy) => {
                if self.asks.len() > 0 {
                    Some(Side::Sell)
                } else {
                    None
                }
            },
            Some(Side::Sell) => {
                if self.bids.len() > 0 {
                    Some(Side::Buy)
                } else {
                    None
                }
            },
            None => None,
        }
    }

    /// The role of the best-priced order of `side`; `None` when the side is empty.
    pub fn best_role(&self, side: Side) -> (r: Option<OrderRole>)
        ensures
            self.side(side).len() == 0 ==> r is None,
            self.side(side).len() > 0 ==> r == Some(
                self.side(side)[best_index(self.side(side), side)].state.order_role,
            ),
    {
        match side {
            Side::Buy => {
                if self.bids.len() == 0 {
                    None
                } else {
                    let b = best_position(&self.bids, Side::Buy);
                    Some(self.bids[b].state.order_role)
                }
            },
            Side::Sell => {
                if self.asks.len() == 0 {
                    None
                } else {
                    let b = best_position(&self.asks, Side::Sell);
                    Some(self.asks[b].state.order_role)
                }
            },
        }
    }

    /// Matches a market trade against the bids and returns the client trades.
    pub fn match_bids(&mut self, market_trade: &MarketTrade, fee_rate: i64) -> (trades: Vec<ClientTrade>)
        requires
            old(self).wf(),
            0 <= fee_rate <= SCALE,
        ensures
            (final(self).bids@, trades@) == match_side(
                old(self).bids@,
                Side::Buy,
                market_trade.amount as int,
                market_trade.price,
                fee_rate,
                market_trade.timestamp,
            ),
            final(self).asks == old(self).asks,
            final(self).batch_id == old(self).batch_id,
            final(self).wf(),
    {
        let ghost before = self.bids@;
        let trades = match_resting(
            &mut self.bids,
            Side::Buy,
            market_trade.amount,
            market_trade.price,
            fee_rate,
            market_trade.timestamp,
        );
        proof {
            lemma_match_keeps_ids(
                before,
                Side::Buy,
                market_trade.amount as int,
                market_trade.price,
                fee_rate,
                market_trade.timestamp,
            );
            let after = match_side(
                before,
                Side::Buy,
                market_trade.amount as int,
                market_trade.price,
                fee_rate,
                market_trade.timestamp,
            ).0;
            assert forall|i: int| 0 <= i < after.len() implies (#[trigger] after[i]).state.id.0
                < self.batch_id by {
                let j = choose|j: int| 0 <= j < before.len() && before[j].state.id == after[i].state.id;
            }
            assert forall|i: int, k: int| 0 <= i < after.len() && 0 <= k < self.asks@.len() implies (
            #[trigger] after[i]).state.id != (#[trigger] self.asks@[k]).state.id by {
                let j = choose|j: int| 0 <= j < before.len() && before[j].state.id == after[i].state.id;
            }
        }
        trades
    }

    /// Matches a market trade against the asks and returns the client trades.
    pub fn match_asks(&mut self, market_trade: &MarketTrade, fee_rate: i64) -> (trades: Vec<ClientTrade>)
        requires
            old(self).wf(),
            0 <= fee_rate <= SCALE,
        ensures
            (final(self).asks@, trades@) == match_side(
                old(self).asks@,
                Side::Sell,
                market_trade.amount as int,
                market_trade.price,
                fee_rate,
                market_trade.timestamp,
            ),
            final(self).bids == old(self).bids,
            final(self).batch_id == old(self).batch_id,
            final(self).wf(),
    {
        let ghost before = self.asks@;
        let trades = match_resting(
            &mut self.asks,
            Side::Sell,
            market_trade.amount,
            market_trade.price,
            fee_rate,
            market_trade.timestamp,
        );
        proof {
            lemma_match_keeps_ids(
                before,
                Side::Sell,
                market_trade.amount as int,
                market_trade.price,
                fee_rate,
                market_trade.timestamp,
            );
            let after = match_side(
                before,
                Side::Sell,
                market_trade.amount as int,
                market_trade.price,
                fee_rate,
                market_trade.timestamp,
            ).0;
            assert forall|i: int| 0 <= i < after.len() implies (#[trigger] after[i]).state.id.0
                < self.batch_id by {
                let j = choose|j: int| 0 <= j < before.len() && before[j].state.id == after[i].state.id;
            }
            assert forall|i: int, k: int| 0 <= i < after.len() && 0 <= k < self.bids@.len() implies (
            #[trigger] after[i]).state.id != (#[trigger] self.bids@[k]).state.id by {
                let j = choose|j: int| 0 <= j < before.len() && before[j].state.id == after[i].state.id;
            }
        }
        trades
    }

    /// Takes the order at place `index` off the given side and returns it.
    pub fn remove_order(&mut self, side: Side, index: usize) -> (r: Order<Open>)
        requires
            old(self).wf(),
            index < old(self).side(side).len(),
        ensures
            r == old(self).side(side)[index as int],
            final(self).side(side) == old(self).side(side).remove(index as int),
            final(self).side(side.spec_opposite()) == old(self).side(side.spec_opposite()),
            final(self).batch_id == old(self).batch_id,
            final(self).wf(),
    {
        proof {
            lemma_remove_keeps_side(self.side(side), side, index as int);
        }
        match side {
            Side::Buy => self.bids.remove(index),
            Side::Sell => self.asks.remove(index),
        }
    }
}

/// The matching engine: matches a market trade against the given side of a
/// book at the given fee rate and returns the client trades. The engine
/// changes that side of the book and nothing else.
pub fn match_market_trade(book: &mut InstrumentOrders, market_trade: &MarketTrade, side: Side, fee_rate: i64) -> (trades:
    Vec<ClientTrade>)
    requires
        old(book).wf(),
        0 <= fee_rate <= SCALE,
    ensures
        (final(book).side(side), trades@) == match_side(
            old(book).side(side),
            side,
            market_trade.amount as int,
            market_trade.price,
            fee_rate,
            market_trade.timestamp,
        ),
        final(book).side(side.spec_opposite()) == old(book).side(side.spec_opposite()),
        final(book).batch_id == old(book).batch_id,
        final(book).wf(),
{
    match side {
        Side::Buy => book.match_bids(market_trade, fee_rate),
        Side::Sell => book.match_asks(market_trade, fee_rate),
    }
}

/// Every order of `after` has the id of an order of `before`.
pub open spec fn ids_from(after: Seq<Order<Open>>, before: Seq<Order<Open>>) -> bool {
    forall|i: int|
        0 <= i < after.len() ==> exists|j: int|
            0 <= j < before.len() && before[j].state.id == (#[trigger] after[i]).state.id
}

/// Every order that matching leaves on a side was on the side before, under
/// the same id.
pub proof fn lemma_match_keeps_ids(
    orders: Seq<Order<Open>>,
    side: Side,
    amount: int,
    price: i64,
    fee_rate: i64,
    timestamp: i64,
)
    ensures
        ids_from(match_side(orders, side, amount, price, fee_rate, timestamp).0, orders),
    decreases orders.len(),
{
    let left = match_side(orders, side, amount, price, fee_rate, timestamp).0;
    if amount > 0 && orders.len() > 0 {
        lemma_best_index(orders, side);
        let b = best_index(orders, side);
        let best = orders[b];
        let fill = min_amount(amount, best.state.remaining());
        if crosses(side, best.state.price, price) && fill == best.state.remaining() {
            let rest = orders.remove(b);
            lemma_match_keeps_ids(rest, side, amount - fill, price, fee_rate, timestamp);
            assert forall|i: int| 0 <= i < left.len() implies exists|j: int|
                0 <= j < orders.len() && orders[j].state.id == (#[trigger] left[i]).state.id by {
                let k = choose|k: int| 0 <= k < rest.len() && rest[k].state.id == left[i].state.id;
                let j = if k < b {
                    k
                } else {
                    k + 1
                };
            }
        } else {
            assert forall|i: int| 0 <= i < left.len() implies exists|j: int|
                0 <= j < orders.len() && orders[j].state.id == (#[trigger] left[i]).state.id by {
                assert(orders[i].state.id == left[i].state.id);
            }
        }
    } else {
        assert forall|i: int| 0 <= i < left.len() implies exists|j: int|
            0 <= j < orders.len() && orders[j].state.id == (#[trigger] left[i]).state.id by {
            assert(orders[i].state.id == left[i].state.id);
        }
    }
}

} // verus!
