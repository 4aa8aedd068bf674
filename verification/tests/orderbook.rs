use sandbox_exchange::account_orders::{AccountLatency, AccountOrders, FluctuationMode};
use sandbox_exchange::error::ExchangeError;
use sandbox_exchange::instrument::{Exchange, Instrument, InstrumentKind, Side};
use sandbox_exchange::order::{
    ClientOrderId, Open, Order, OrderId, OrderInstruction, OrderRole, RequestOpen,
};
use sandbox_exchange::orderbook::{best_position, determine_role, match_resting, InstrumentOrders};
use sandbox_exchange::test_util::{generate_client_orders, generate_order_open, generate_public_trade, generate_trade};
use sandbox_exchange::trade::{MarketTrade, SymbolFees, TradeId};
use sandbox_exchange::instrument::Token;

fn amt(x: f64) -> i64 {
    (x * 100_000_000.0).round() as i64
}

fn resting(id: u64, side: Side, price: f64, size: f64, filled: f64) -> Order<Open> {
    Order {
        instruction: OrderInstruction::Limit,
        exchange: Exchange::SandBox,
        instrument: Instrument::new("ETH", "USDT", InstrumentKind::Perpetual),
        timestamp: 0,
        cid: None,
        side,
        state: Open {
            id: OrderId(id),
            price: amt(price),
            size: amt(size),
            filled_quantity: amt(filled),
            order_role: OrderRole::Maker,
        },
    }
}

fn request(side: Side, instruction: OrderInstruction, price: f64) -> Order<RequestOpen> {
    Order {
        instruction,
        exchange: Exchange::SandBox,
        instrument: Instrument::new("ETH", "USDT", InstrumentKind::Perpetual),
        timestamp: 0,
        cid: None,
        side,
        state: RequestOpen { price: amt(price), size: amt(1.0), reduce_only: false },
    }
}

fn market(side: &str, price: f64, amount: f64) -> MarketTrade {
    MarketTrade {
        exchange: "Binance".to_string(),
        symbol: "ETH_USDT".to_string(),
        timestamp: 42,
        price: amt(price),
        side: side.to_string(),
        amount: amt(amount),
    }
}

#[test]
fn bids_are_matched_from_the_highest_price_down() {
    let mut bids = vec![
        resting(1, Side::Buy, 99.0, 1.0, 0.0),
        resting(2, Side::Buy, 101.0, 1.0, 0.0),
        resting(3, Side::Buy, 100.0, 1.0, 0.0),
    ];
    let trades = match_resting(&mut bids, Side::Buy, amt(2.5), amt(99.0), amt(0.001), 42);
    let filled: Vec<(u64, i64, i64)> = trades.iter().map(|t| (t.order_id.0, t.price, t.size)).collect();
    assert_eq!(
        filled,
        vec![(2, amt(101.0), amt(1.0)), (3, amt(100.0), amt(1.0)), (1, amt(99.0), amt(0.5))]
    );
    assert_eq!(trades[0].fees, amt(0.101));
    assert_eq!(trades[2].fees, amt(0.0495));
    assert_eq!(trades[0].timestamp, 42);
    assert_eq!(bids.len(), 1);
    assert_eq!(bids[0].state.id, OrderId(1));
    assert_eq!(bids[0].state.filled_quantity, amt(0.5));
}

#[test]
fn asks_are_matched_from_the_lowest_price_up() {
    let mut asks = vec![
        resting(1, Side::Sell, 102.0, 1.0, 0.0),
        resting(2, Side::Sell, 100.0, 2.0, 1.5),
        resting(3, Side::Sell, 101.0, 1.0, 0.0),
    ];
    let trades = match_resting(&mut asks, Side::Sell, amt(10.0), amt(101.0), 0, 1);
    let filled: Vec<(u64, i64)> = trades.iter().map(|t| (t.order_id.0, t.size)).collect();
    assert_eq!(filled, vec![(2, amt(0.5)), (3, amt(1.0))]);
    assert_eq!(asks.len(), 1);
    assert_eq!(asks[0].state.id, OrderId(1));
    assert_eq!(trades[0].fees, 0);
}

#[test]
fn equal_prices_are_matched_in_the_order_of_admission() {
    let mut bids = vec![
        resting(1, Side::Buy, 100.0, 1.0, 0.0),
        resting(2, Side::Buy, 100.0, 1.0, 0.0),
        resting(3, Side::Buy, 100.0, 1.0, 0.0),
    ];
    assert_eq!(best_position(&bids, Side::Buy), 0);
    let trades = match_resting(&mut bids, Side::Buy, amt(1.5), amt(100.0), 0, 1);
    let filled: Vec<(u64, i64)> = trades.iter().map(|t| (t.order_id.0, t.size)).collect();
    assert_eq!(filled, vec![(1, amt(1.0)), (2, amt(0.5))]);
    let left: Vec<u64> = bids.iter().map(|o| o.state.id.0).collect();
    assert_eq!(left, vec![2, 3]);
}

#[test]
fn no_trade_when_the_best_order_does_not_cross() {
    let mut bids = vec![resting(1, Side::Buy, 99.0, 1.0, 0.0), resting(2, Side::Buy, 98.0, 1.0, 0.0)];
    let before = bids.clone();
    assert!(match_resting(&mut bids, Side::Buy, amt(5.0), amt(100.0), 0, 1).is_empty());
    assert_eq!(bids, before);
    assert!(match_resting(&mut bids, Side::Buy, 0, amt(90.0), 0, 1).is_empty());
    assert!(match_resting(&mut bids, Side::Buy, -5, amt(90.0), 0, 1).is_empty());
    assert_eq!(bids, before);
    let mut empty: Vec<Order<Open>> = Vec::new();
    assert!(match_resting(&mut empty, Side::Sell, amt(5.0), amt(100.0), 0, 1).is_empty());
}

#[test]
fn role_is_decided_against_the_current_price() {
    let role = |side, instruction, price: f64| determine_role(&request(side, instruction, price), amt(100.0));
    assert_eq!(role(Side::Buy, OrderInstruction::Limit, 99.0), Ok(OrderRole::Maker));
    assert_eq!(role(Side::Buy, OrderInstruction::Limit, 100.0), Ok(OrderRole::Taker));
    assert_eq!(role(Side::Buy, OrderInstruction::Limit, 101.0), Ok(OrderRole::Taker));
    assert_eq!(role(Side::Sell, OrderInstruction::Limit, 101.0), Ok(OrderRole::Maker));
    assert_eq!(role(Side::Sell, OrderInstruction::Limit, 100.0), Ok(OrderRole::Taker));
    assert_eq!(role(Side::Sell, OrderInstruction::GoodTilCancelled, 99.0), Ok(OrderRole::Taker));
    assert_eq!(role(Side::Buy, OrderInstruction::Market, 1.0), Ok(OrderRole::Taker));
    assert_eq!(role(Side::Buy, OrderInstruction::ImmediateOrCancel, 1.0), Ok(OrderRole::Taker));
    assert_eq!(role(Side::Sell, OrderInstruction::FillOrKill, 1_000.0), Ok(OrderRole::Taker));
    assert_eq!(role(Side::Buy, OrderInstruction::PostOnly, 99.0), Ok(OrderRole::Maker));
    assert!(matches!(role(Side::Buy, OrderInstruction::PostOnly, 100.0), Err(ExchangeError::PostOnlyViolation)));
    assert!(matches!(role(Side::Sell, OrderInstruction::PostOnly, 100.0), Err(ExchangeError::PostOnlyViolation)));
    assert_eq!(role(Side::Sell, OrderInstruction::PostOnly, 100.5), Ok(OrderRole::Maker));
}

#[test]
fn ids_are_given_out_in_order() {
    let mut book = InstrumentOrders::new();
    assert_eq!(book.batch_id, 1);
    assert_eq!(book.assign_id(), Some(OrderId(1)));
    assert_eq!(book.assign_id(), Some(OrderId(2)));
    let open = book.build_order_open(request(Side::Sell, OrderInstruction::Limit, 5.0), OrderRole::Taker).unwrap();
    assert_eq!(open.state.id, OrderId(3));
    assert_eq!(open.state.filled_quantity, 0);
    assert_eq!(open.state.order_role, OrderRole::Taker);
    book.add_order_open(open.clone());
    assert_eq!(book.asks, vec![open]);
    assert!(book.bids.is_empty());
    assert_eq!(book.batch_id, 4);
    book.add_order_open(resting(10, Side::Buy, 1.0, 1.0, 0.0));
    assert_eq!(book.batch_id, 11);
    assert_eq!(book.assign_id(), Some(OrderId(11)));

    let mut last = generate_client_orders(u64::MAX, vec![], vec![]);
    assert_eq!(last.assign_id(), None);
    assert_eq!(last.build_order_open(request(Side::Sell, OrderInstruction::Limit, 5.0), OrderRole::Taker), None);
    assert_eq!(last.batch_id, u64::MAX);
}

#[test]
fn the_matching_side_is_the_other_side_of_the_aggressor() {
    let mut book = InstrumentOrders::new();
    assert_eq!(book.determine_matching_side(&market("Buy", 1.0, 1.0)), None);
    book.add_order_open(resting(1, Side::Sell, 100.0, 1.0, 0.0));
    assert_eq!(book.determine_matching_side(&market("Buy", 1.0, 1.0)), Some(Side::Sell));
    assert_eq!(book.determine_matching_side(&market("Sell", 1.0, 1.0)), None);
    assert_eq!(book.determine_matching_side(&market("buy", 1.0, 1.0)), None);
    book.add_order_open(resting(2, Side::Buy, 90.0, 1.0, 0.0));
    assert_eq!(book.determine_matching_side(&market("Sell", 1.0, 1.0)), Some(Side::Buy));
    assert_eq!(book.best_role(Side::Buy), Some(OrderRole::Maker));
    assert_eq!(book.fetch_all().len(), 2);
    assert_eq!(book.fetch_all()[0].side, Side::Buy);

    let trades = book.match_asks(&market("Buy", 100.0, 0.25), amt(0.002));
    assert_eq!(trades.len(), 1);
    assert_eq!(trades[0].fees, amt(0.05));
    assert_eq!(book.asks[0].state.filled_quantity, amt(0.25));
    assert!(book.match_bids(&market("Sell", 95.0, 1.0), amt(0.002)).is_empty());
    let removed = book.remove_order(Side::Buy, 0);
    assert_eq!(removed.state.id, OrderId(2));
    assert!(book.bids.is_empty());
}

#[test]
fn an_account_has_one_book_per_instrument() {
    let eth = Instrument::new("ETH", "USDT", InstrumentKind::Perpetual);
    let btc = Instrument::new("BTC", "USDT", InstrumentKind::Perpetual);
    let latency =
        AccountLatency { fluctuation_mode: FluctuationMode::Uniform, maximum: 9, minimum: 1, current_value: 5 };
    let mut orders = AccountOrders::new(vec![eth.clone(), btc.clone(), eth.clone()], latency);
    assert_eq!(orders.books.len(), 2);
    assert_eq!(orders.position_of(&btc), Some(1));
    assert_eq!(orders.position_of(&Instrument::new("ETH", "USDT", InstrumentKind::Future)), None);
    assert!(matches!(
        orders.get_ins_orders_mut(&Instrument::new("SOL", "USDT", InstrumentKind::Perpetual)),
        Err(ExchangeError::InvalidInstrument)
    ));
    orders.get_ins_orders_mut(&btc).unwrap().add_order_open(resting(7, Side::Sell, 1.0, 1.0, 0.0));
    orders.get_ins_orders_mut(&eth).unwrap().add_order_open(resting(8, Side::Buy, 1.0, 1.0, 0.0));
    let all: Vec<u64> = orders.fetch_all().iter().map(|o| o.state.id.0).collect();
    assert_eq!(all, vec![8, 7]);
    let stamped = orders.process_backtest_requestopen_with_a_simulated_latency(request(
        Side::Buy,
        OrderInstruction::Limit,
        1.0,
    ));
    assert_eq!(stamped.timestamp, 5);
    assert_eq!(
        orders.determine_maker_taker(&request(Side::Buy, OrderInstruction::Limit, 1.0), amt(2.0)),
        Ok(OrderRole::Maker)
    );
}

#[test]
fn ready_made_values() {
    let order = generate_order_open(ClientOrderId("abc".into()), Side::Buy, amt(10.0), amt(2.0), amt(0.5));
    assert_eq!(order.state.remaining_quantity(), amt(1.5));
    assert_eq!(order.state.id, OrderId(1));
    assert_eq!(order.instrument, Instrument::new("base", "quote", InstrumentKind::Perpetual));
    let book = generate_client_orders(9, vec![order.clone()], vec![]);
    assert_eq!(book.batch_id, 9);
    assert_eq!(book.bids, vec![order.clone()]);
    let public = generate_public_trade(Side::Sell, amt(1.0), amt(2.0));
    assert_eq!(public.id, "trade_id");
    assert_eq!(public.side, Side::Sell);
    let trade = generate_trade(TradeId::new("t-1"), Side::Buy, amt(3.0), amt(4.0), SymbolFees::new(Token::new("quote"), 5));
    assert_eq!(trade.id, TradeId("t-1".into()));
    assert_eq!(trade.amount, amt(4.0));
    assert_eq!(trade.fees.fees, 5);
    assert_eq!(order.clone().into_cancelled().state.id, OrderId(1));
}
