//! What holds of the exchange whatever the requests and trades are.
use vstd::prelude::*;
use crate::account::{matched, required_balance, trade_step, Account};
use crate::balance::{released, reserve_token, settlement, settles, Balance, BalanceDelta};
use crate::config::lemma_rates_of_in_range;
use crate::error::ExchangeError;
use crate::fixed::{
    fee_amount, fits_i64, lemma_fee_bounded, lemma_notional_monotonic, lemma_scaled_mul_one, notional, scaled_mul,
    SCALE,
};
use crate::instrument::{InstrumentKey, Side};
use crate::order::{Cancelled, Open, Order, RequestOpen};
use crate::orderbook::{
    best_index, crosses, fill_trade, lemma_best_index, lemma_remove_keeps_side, match_side, matching_side,
    min_amount, side_wf, InstrumentOrders,
};
use crate::trade::{instrument_named, side_named, ClientTrade, MarketTrade};

verus! {

/// Applying two deltas one after the other is applying their sum, where
/// every step is representable.
pub proof fn lemma_deltas_compose(balance: Balance, first: BalanceDelta, second: BalanceDelta)
    requires
        balance.accepts(first),
        balance.plus(first).accepts(second),
        fits_i64(first.total + second.total),
        fits_i64(first.available + second.available),
    ensures
        balance.plus(first).plus(second) == balance.plus(
            BalanceDelta {
                total: (first.total + second.total) as i64,
                available: (first.available + second.available) as i64,
            },
        ),
{
}

/// A deposit of an amount that is not negative lowers neither the total nor
/// the available balance, and raises both by the amount.
pub proof fn lemma_deposit_monotone(balance: Balance, amount: i64)
    requires
        amount >= 0,
        balance.accepts(BalanceDelta { total: amount, available: amount }),
    ensures
        balance.plus(BalanceDelta { total: amount, available: amount }).total == balance.total + amount,
        balance.plus(BalanceDelta { total: amount, available: amount }).available == balance.available + amount,
        balance.plus(BalanceDelta { total: amount, available: amount }).total >= balance.total,
        balance.plus(BalanceDelta { total: amount, available: amount }).available >= balance.available,
{
}

/// No two orders of a well-formed book share an order id: on each side the
/// ids grow strictly with the place, no bid has the id of an ask, and every id
/// is below the counter, so that the next id given out is new.
pub proof fn lemma_order_ids_unique(book: InstrumentOrders)
    requires
        book.wf(),
    ensures
        forall|i: int, j: int|
            0 <= i < j < book.all().len() ==> (#[trigger] book.all()[i]).state.id != (#[trigger] book.all()[j]).state.id,
        forall|i: int, j: int|
            0 <= i < j < book.bids@.len() ==> (#[trigger] book.bids@[i]).state.id.0 < (
            #[trigger] book.bids@[j]).state.id.0,
        forall|i: int, j: int|
            0 <= i < j < book.asks@.len() ==> (#[trigger] book.asks@[i]).state.id.0 < (
            #[trigger] book.asks@[j]).state.id.0,
        forall|i: int| 0 <= i < book.all().len() ==> (#[trigger] book.all()[i]).state.id.0 < book.batch_id,
{
    let all = book.all();
    let n = book.bids@.len() as int;
    assert forall|i: int, j: int| 0 <= i < j < all.len() implies (#[trigger] all[i]).state.id != (
    #[trigger] all[j]).state.id by {
        if j < n {
            assert(all[i] == book.bids@[i] && all[j] == book.bids@[j]);
        } else if i >= n {
            assert(all[i] == book.asks@[i - n] && all[j] == book.asks@[j - n]);
        } else {
            assert(all[i] == book.bids@[i] && all[j] == book.asks@[j - n]);
        }
    }
    assert forall|i: int| 0 <= i < all.len() implies (#[trigger] all[i]).state.id.0 < book.batch_id by {
        if i < n {
            assert(all[i] == book.bids@[i]);
        } else {
            assert(all[i] == book.asks@[i - n]);
        }
    }
}

/// Every client trade that matching produces is executed at the price of the
/// order it fills and carries the fee of its notional at the rate given: the
/// fee is the size times the price times the rate.
pub proof fn lemma_match_fees(
    orders: Seq<Order<Open>>,
    side: Side,
    amount: int,
    price: i64,
    fee_rate: i64,
    timestamp: i64,
)
    requires
        side_wf(orders, side),
        0 <= fee_rate <= SCALE,
    ensures
        forall|i: int|
            0 <= i < match_side(orders, side, amount, price, fee_rate, timestamp).1.len() ==> {
                let trade = #[trigger] match_side(orders, side, amount, price, fee_rate, timestamp).1[i];
                &&& trade.size > 0
                &&& trade.fees == fee_amount(trade.price as int, trade.size as int, fee_rate as int)
                &&& crosses(side, trade.price, price)
            },
    decreases orders.len(),
{
    let trades = match_side(orders, side, amount, price, fee_rate, timestamp).1;
    if amount > 0 && orders.len() > 0 {
        lemma_best_index(orders, side);
        let b = best_index(orders, side);
        let best = orders[b];
        if crosses(side, best.state.price, price) {
            let fill = min_amount(amount, best.state.remaining());
            let first = fill_trade(best, fill, fee_rate, timestamp);
            lemma_notional_monotonic(best.state.price as int, fill, best.state.size as int);
            lemma_fee_bounded(notional(best.state.price as int, fill), fee_rate as int);
            if fill == best.state.remaining() {
                let rest = orders.remove(b);
                lemma_remove_keeps_side(orders, side, b);
                lemma_match_fees(rest, side, amount - fill, price, fee_rate, timestamp);
                let tail = match_side(rest, side, amount - fill, price, fee_rate, timestamp).1;
                assert forall|i: int| 0 <= i < trades.len() implies {
                    let trade = #[trigger] trades[i];
                    &&& trade.size > 0
                    &&& trade.fees == fee_amount(trade.price as int, trade.size as int, fee_rate as int)
                    &&& crosses(side, trade.price, price)
                } by {
                    if i > 0 {
                        assert(trades[i] == tail[i - 1]);
                    }
                }
            } else {
                assert(trades == seq![first]);
            }
        }
    }
}

/// Every client trade that the account makes of a market trade carries the
/// fee of its notional at the rate that the book of fees gives, for the kind
/// of the instrument, to the role of the best-priced resting order on the side
/// that the trade was matched against.
pub proof fn lemma_trade_fees_follow_role(
    before: Account,
    market_trade: MarketTrade,
    after: Account,
    r: Result<Vec<ClientTrade>, ExchangeError>,
)
    requires
        before.wf(),
        matched(before, market_trade, after, r),
        r is Ok,
        r->Ok_0@.len() > 0,
    ensures
        ({
            let key = instrument_named(market_trade.symbol@)->Some_0;
            let book = before.orders.book(key);
            let side = matching_side(book.bids@, book.asks@, side_named(market_trade.side@))->Some_0;
            let role = book.side(side)[best_index(book.side(side), side)].state.order_role;
            let rate = before.config.rates(key.2)->Some_0.rate(role);
            forall|i: int|
                0 <= i < r->Ok_0@.len() ==> (#[trigger] r->Ok_0@[i]).fees == fee_amount(
                    r->Ok_0@[i].price as int,
                    r->Ok_0@[i].size as int,
                    rate as int,
                )
        }),
{
    let key = instrument_named(market_trade.symbol@)->Some_0;
    let book = before.orders.book(key);
    let side = matching_side(book.bids@, book.asks@, side_named(market_trade.side@))->Some_0;
    let role = book.side(side)[best_index(book.side(side), side)].state.order_role;
    let rates = before.config.rates(key.2)->Some_0;
    lemma_rates_of_in_range(before.config.fees_book@, key.2);
    let slot = before.orders.slot(key);
    assert(0 <= slot < before.orders.books@.len() && before.orders.books@[slot].instrument@ == key);
    assert(before.orders.books@[slot].orders.wf());
    lemma_match_fees(
        book.side(side),
        side,
        market_trade.amount as int,
        market_trade.price,
        rates.rate(role),
        market_trade.timestamp,
    );
}

/// The sizes of the trades, added up.
pub open spec fn total_size(trades: Seq<ClientTrade>) -> int
    decreases trades.len(),
{
    if trades.len() == 0 {
        0
    } else {
        trades[0].size + total_size(trades.skip(1))
    }
}

/// Matching never fills more than the market trade brings: the sizes of the
/// client trades add up to no more than its amount.
pub proof fn lemma_match_within_amount(
    orders: Seq<Order<Open>>,
    side: Side,
    amount: int,
    price: i64,
    fee_rate: i64,
    timestamp: i64,
)
    requires
        side_wf(orders, side),
        0 <= amount <= i64::MAX,
    ensures
        0 <= total_size(match_side(orders, side, amount, price, fee_rate, timestamp).1) <= amount,
    decreases orders.len(),
{
    let trades = match_side(orders, side, amount, price, fee_rate, timestamp).1;
    if amount > 0 && orders.len() > 0 {
        lemma_best_index(orders, side);
        let b = best_index(orders, side);
        let best = orders[b];
        if crosses(side, best.state.price, price) {
            let fill = min_amount(amount, best.state.remaining());
            if fill == best.state.remaining() {
                let rest = orders.remove(b);
                lemma_remove_keeps_side(orders, side, b);
                lemma_match_within_amount(rest, side, amount - fill, price, fee_rate, timestamp);
                let tail = match_side(rest, side, amount - fill, price, fee_rate, timestamp).1;
                assert(trades.skip(1) =~= tail);
            } else {
                assert(total_size(trades.skip(1)) == 0);
            }
        } else {
            assert(trades.len() == 0);
        }
    } else {
        assert(trades.len() == 0);
    }
}

/// With a leverage of one, an order that is admitted and then cancelled with
/// nothing of it filled leaves the balances as they were: both the total and
/// the available amount of the reserved token are back at their values from
/// before the admission.
pub proof fn lemma_cancel_restores_balance(
    before: Account,
    current_price: i64,
    request: Order<RequestOpen>,
    opened: Account,
    at: int,
    after: Account,
    result: Result<Order<Cancelled>, ExchangeError>,
)
    requires
        before.wf(),
        before.config.account_leverage_rate == SCALE,
        before.atomic_open_refusal(current_price, request) is None,
        before.opened_into(current_price, request, opened),
        opened.orders.book(request.instrument@).side(request.side)[at] == before.admitted(current_price, request),
        opened.cancelled_at(request.instrument@, request.side, at, after, result),
    ensures
        opened.release_outcome(before.admitted(current_price, request)) == Some(
            before.balances@[reserve_token(request.instrument, request.side)@],
        ),
        result == Ok::<Order<Cancelled>, ExchangeError>(before.admitted(current_price, request).as_cancelled()),
        after.balances@ == before.balances@,
{
    let token = reserve_token(request.instrument, request.side);
    let open = before.admitted(current_price, request);
    let price = request.state.price as int;
    let size = request.state.size as int;
    lemma_scaled_mul_one(notional(price, size));
    lemma_scaled_mul_one(size);
    assert(open.state.remaining() == size);
}

/// Admitting a buy at price `p` for size `q` lowers the available balance of
/// the quote token by `p * q * leverage` and leaves its total alone.
pub proof fn lemma_open_reserves(before: Account, current_price: i64, request: Order<RequestOpen>, opened: Account)
    requires
        before.wf(),
        before.atomic_open_refusal(current_price, request) is None,
        before.opened_into(current_price, request, opened),
        request.side == Side::Buy,
    ensures
        opened.balances@[request.instrument.quote@].available == before.balances@[request.instrument.quote@].available
            - scaled_mul(
            notional(request.state.price as int, request.state.size as int),
            before.config.account_leverage_rate as int,
        ),
        opened.balances@[request.instrument.quote@].total == before.balances@[request.instrument.quote@].total,
{
    crate::account::lemma_requirement_not_negative(
        request.instrument.kind,
        request.side,
        request.state.price as int,
        request.state.size as int,
        before.config.account_leverage_rate as int,
    );
}

/// Cancelling a resting buy raises the available balance of the quote token
/// by the order's price times what remains of it unfilled, and leaves the
/// total alone.
pub proof fn lemma_cancel_releases(
    before: Account,
    key: InstrumentKey,
    at: int,
    after: Account,
    result: Result<Order<Cancelled>, ExchangeError>,
)
    requires
        before.cancelled_at(key, Side::Buy, at, after, result),
        result is Ok,
        before.orders.book(key).side(Side::Buy)[at].side == Side::Buy,
        before.balances@.contains_key(before.orders.book(key).side(Side::Buy)[at].instrument.quote@),
    ensures
        ({
            let order = before.orders.book(key).side(Side::Buy)[at];
            let quote = order.instrument.quote@;
            &&& after.balances@[quote].available == before.balances@[quote].available + notional(
                order.state.price as int,
                order.state.remaining(),
            )
            &&& after.balances@[quote].total == before.balances@[quote].total
        }),
{
}

/// The client is told of an admission in two events, appended to those
/// queued before: first the balance, then the opened order.
pub proof fn lemma_open_events(before: Account, current_price: i64, request: Order<RequestOpen>, after: Account)
    requires
        before.opened_into(current_price, request, after),
    ensures
        after.event_views().len() == before.event_views().len() + 2,
        after.event_views().take(before.event_views().len() as int) == before.event_views(),
        after.event_views()[before.event_views().len() as int].kind is Balance,
        after.event_views()[before.event_views().len() as int + 1].kind is OrdersOpen,
{
    assert(after.event_views().take(before.event_views().len() as int) =~= before.event_views());
}

/// The client is told of a cancellation in two events, appended to those
/// queued before: first the cancelled order, then the balance.
pub proof fn lemma_cancel_events(
    before: Account,
    key: InstrumentKey,
    side: Side,
    at: int,
    after: Account,
    result: Result<Order<Cancelled>, ExchangeError>,
)
    requires
        before.cancelled_at(key, side, at, after, result),
        result is Ok,
    ensures
        after.event_views().len() == before.event_views().len() + 2,
        after.event_views().take(before.event_views().len() as int) == before.event_views(),
        after.event_views()[before.event_views().len() as int].kind is OrdersCancelled,
        after.event_views()[before.event_views().len() as int + 1].kind is Balance,
{
    assert(after.event_views().take(before.event_views().len() as int) =~= before.event_views());
}

/// The client is told of a settled trade in two events, appended to those
/// queued before: first the trade, then the balances. A trade that is not
/// settled is not reported.
pub proof fn lemma_trade_events(before: Account, trade: ClientTrade, after: Account)
    requires
        trade_step(before, trade, after),
    ensures
        settles(trade.instrument.kind) && settlement(before.balances@, trade, before.exchange_timestamp) is Some ==> {
            &&& after.event_views().len() == before.event_views().len() + 2
            &&& after.event_views().take(before.event_views().len() as int) == before.event_views()
            &&& after.event_views()[before.event_views().len() as int].kind == crate::event::EventKindView::Trade(
                trade,
            )
            &&& after.event_views()[before.event_views().len() as int + 1].kind is Balances
        },
        !(settles(trade.instrument.kind) && settlement(before.balances@, trade, before.exchange_timestamp) is Some)
            ==> after.event_views() == before.event_views(),
{
    if settles(trade.instrument.kind) && settlement(before.balances@, trade, before.exchange_timestamp) is Some {
        assert(after.event_views().take(before.event_views().len() as int) =~= before.event_views());
    }
}

} // verus!
