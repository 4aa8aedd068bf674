use sandbox_exchange::account::Account;
use sandbox_exchange::account_orders::{AccountLatency, AccountOrders, FluctuationMode};
use sandbox_exchange::balance::{AccountBalances, Balance};
use sandbox_exchange::config::{
    AccountConfig, CommissionRates, FeeEntry, PositionDirectionMode, PositionMarginMode, SandboxMode,
};
use sandbox_exchange::error::ExchangeError;
use sandbox_exchange::event::{AccountEvent, AccountEventKind};
use sandbox_exchange::instrument::{Exchange, Instrument, InstrumentKind, Side, Token};
use sandbox_exchange::order::{
    ClientOrderId, Open, Order, OrderId, OrderInstruction, OrderRole, RequestCancel, RequestOpen,
};
use sandbox_exchange::position::{AccountPositions, Position};
use sandbox_exchange::trade::{ClientTrade, ClientTradeId, MarketTrade};

fn amt(x: f64) -> i64 {
    (x * 100_000_000.0).round() as i64
}

fn config(direction: PositionDirectionMode, margin: PositionMarginMode, leverage: f64) -> AccountConfig {
    AccountConfig {
        execution_mode: SandboxMode::Backtest,
        position_direction_mode: direction,
        position_margin_mode: margin,
        account_leverage_rate: amt(leverage),
        funding_rate: 0,
        fees_book: vec![FeeEntry {
            kind: InstrumentKind::Perpetual,
            rates: CommissionRates { maker_fees: amt(0.001), taker_fees: amt(0.002) },
        }],
    }
}

fn account_with(config: AccountConfig, eth_price: f64, usdt_price: f64) -> Account {
    let instruments = vec![Instrument::new("ETH", "USDT", InstrumentKind::Perpetual)];
    let latency =
        AccountLatency { fluctuation_mode: FluctuationMode::Steady, maximum: 0, minimum: 0, current_value: 0 };
    let mut balances = AccountBalances::new();
    balances.set(&Token::new("ETH"), Balance::new(amt(10.0), amt(10.0), amt(eth_price)));
    balances.set(&Token::new("USDT"), Balance::new(amt(10_000.0), amt(10_000.0), amt(usdt_price)));
    Account::initiate()
        .config(config)
        .orders(AccountOrders::new(instruments, latency))
        .balances(balances)
        .positions(AccountPositions::init())
        .build()
        .unwrap()
}

fn net_account() -> Account {
    account_with(config(PositionDirectionMode::Net, PositionMarginMode::Isolated, 1.0), 100.0, 100.0)
}

fn eth_usdt() -> Instrument {
    Instrument::new("ETH", "USDT", InstrumentKind::Perpetual)
}

fn request(side: Side, instruction: OrderInstruction, price: f64, size: f64, reduce_only: bool) -> Order<RequestOpen> {
    Order {
        instruction,
        exchange: Exchange::SandBox,
        instrument: eth_usdt(),
        timestamp: 1_000,
        cid: Some(ClientOrderId("cid-1".into())),
        side,
        state: RequestOpen { price: amt(price), size: amt(size), reduce_only },
    }
}

fn cancel_by_id(side: Side, id: OrderId) -> Order<RequestCancel> {
    Order {
        instruction: OrderInstruction::Cancel,
        exchange: Exchange::SandBox,
        instrument: eth_usdt(),
        timestamp: 2_000,
        cid: None,
        side,
        state: RequestCancel { id: Some(id) },
    }
}

fn market(side: &str, price: f64, amount: f64, timestamp: i64) -> MarketTrade {
    MarketTrade {
        exchange: "Binance".to_string(),
        symbol: "ETH_USDT".to_string(),
        timestamp,
        price: amt(price),
        side: side.to_string(),
        amount: amt(amount),
    }
}

fn eth_trade(side: Side, price: f64, size: f64) -> ClientTrade {
    ClientTrade {
        exchange: Exchange::SandBox,
        timestamp: 5,
        trade_id: ClientTradeId(1),
        order_id: OrderId(1),
        cid: None,
        instrument: eth_usdt(),
        side,
        price: amt(price),
        size: amt(size),
        fees: 0,
    }
}

fn balance(account: &Account, token: &str) -> Balance {
    account.get_balance(&Token::new(token)).unwrap()
}

fn kinds(events: &[AccountEvent]) -> Vec<&'static str> {
    events
        .iter()
        .map(|e| match e.kind {
            AccountEventKind::OrdersOpen(_) => "open",
            AccountEventKind::OrdersCancelled(_) => "cancelled",
            AccountEventKind::Trade(_) => "trade",
            AccountEventKind::Balance(_) => "balance",
            AccountEventKind::Balances(_) => "balances",
        })
        .collect()
}

#[test]
fn open_and_cancel_round_trip() {
    let mut account = net_account();
    let before = balance(&account, "USDT");
    assert_eq!(before.total, amt(10_000.0));
    assert_eq!(before.available, amt(10_000.0));

    let results = account.open_orders(vec![request(Side::Buy, OrderInstruction::Limit, 1.0, 2.0, false)]);
    assert_eq!(results.len(), 1);
    let opened = results[0].clone().unwrap();
    assert_eq!(balance(&account, "USDT").available, amt(9_998.0));
    assert_eq!(balance(&account, "USDT").total, amt(10_000.0));
    assert_eq!(opened.state.filled_quantity, 0);
    assert_eq!(opened.state.order_role, OrderRole::Maker);
    assert_eq!(account.fetch_orders_open(), vec![opened.clone()]);

    let cancelled = account.cancel_orders(vec![cancel_by_id(Side::Buy, opened.state.id)]);
    assert_eq!(cancelled.len(), 1);
    assert_eq!(cancelled[0].clone().unwrap().state.id, opened.state.id);
    assert_eq!(balance(&account, "USDT"), before);
    assert!(account.fetch_orders_open().is_empty());
}

#[test]
fn sell_round_trip_restores_the_base_balance() {
    let mut account = net_account();
    let before = balance(&account, "ETH");
    let opened = account.open_order(request(Side::Sell, OrderInstruction::Limit, 150.0, 4.0, false)).unwrap();
    assert_eq!(balance(&account, "ETH").available, amt(6.0));
    assert_eq!(balance(&account, "ETH").total, amt(10.0));
    account.atomic_cancel(cancel_by_id(Side::Sell, opened.state.id)).unwrap();
    assert_eq!(balance(&account, "ETH"), before);
}

#[test]
fn post_only_buy_at_the_current_price_is_refused() {
    let mut account = net_account();
    let result = account.open_order(request(Side::Buy, OrderInstruction::PostOnly, 100.0, 1.0, false));
    assert!(matches!(result, Err(ExchangeError::PostOnlyViolation)));
    assert!(account.fetch_orders_open().is_empty());
    assert_eq!(balance(&account, "USDT").available, amt(10_000.0));
    assert!(account.events.is_empty());

    let sell = account.open_order(request(Side::Sell, OrderInstruction::PostOnly, 100.0, 1.0, false));
    assert!(matches!(sell, Err(ExchangeError::PostOnlyViolation)));

    let below = account.open_order(request(Side::Buy, OrderInstruction::PostOnly, 99.0, 1.0, false)).unwrap();
    assert_eq!(below.state.order_role, OrderRole::Maker);
}

#[test]
fn full_match_of_a_resting_buy() {
    let mut account = net_account();
    let opened = account.open_order(request(Side::Buy, OrderInstruction::Limit, 99.0, 2.0, false)).unwrap();
    assert_eq!(opened.state.order_role, OrderRole::Maker);
    assert_eq!(balance(&account, "USDT").available, amt(10_000.0 - 198.0));
    account.drain_events();

    account.handle_trade_data(market("Sell", 99.0, 2.0, 77)).unwrap();

    let events = account.drain_events();
    assert_eq!(kinds(&events), vec!["trade", "balances"]);
    let trade = match &events[0].kind {
        AccountEventKind::Trade(trade) => trade.clone(),
        _ => unreachable!(),
    };
    assert_eq!(trade.size, amt(2.0));
    assert_eq!(trade.price, amt(99.0));
    // The resting order is a maker: 198 * 0.001.
    assert_eq!(trade.fees, amt(0.198));
    assert_eq!(trade.side, Side::Buy);
    assert_eq!(trade.order_id, opened.state.id);
    assert_eq!(trade.timestamp, 77);
    assert_eq!(events[0].exchange_timestamp, 77);

    assert_eq!(balance(&account, "ETH").total, amt(12.0));
    assert_eq!(balance(&account, "ETH").available, amt(12.0));
    assert_eq!(balance(&account, "USDT").total, amt(10_000.0 - 198.0 - 0.198));
    assert_eq!(balance(&account, "USDT").available, amt(10_000.0 - 198.0 - 0.198));
    assert!(account.fetch_orders_open().is_empty());

    let long = account.positions.get_perpetual(Side::Buy, &eth_usdt()).unwrap();
    assert_eq!(long.meta.current_size, amt(2.0));
    assert_eq!(long.meta.current_avg_price, amt(99.0));
}

#[test]
fn maker_fee_on_two_hundred_is_a_fifth() {
    let mut account = account_with(config(PositionDirectionMode::Net, PositionMarginMode::Isolated, 1.0), 100.0, 101.0);
    let opened = account.open_order(request(Side::Buy, OrderInstruction::Limit, 100.0, 2.0, false)).unwrap();
    assert_eq!(opened.state.order_role, OrderRole::Maker);
    let trades = account.match_orders(&market("Sell", 100.0, 2.0, 1)).unwrap();
    assert_eq!(trades.len(), 1);
    assert_eq!(trades[0].size, amt(2.0));
    assert_eq!(trades[0].price, amt(100.0));
    assert_eq!(trades[0].fees, amt(0.2));
    assert_eq!(balance(&account, "ETH").total, amt(12.0));
    assert_eq!(balance(&account, "USDT").total, amt(10_000.0 - 200.0 - 0.2));
    assert_eq!(balance(&account, "USDT").available, amt(10_000.0 - 200.0 - 0.2));
}

#[test]
fn taker_order_pays_the_taker_rate() {
    let mut account = net_account();
    let opened = account.open_order(request(Side::Buy, OrderInstruction::Limit, 100.0, 2.0, false)).unwrap();
    assert_eq!(opened.state.order_role, OrderRole::Taker);
    let trades = account.match_orders(&market("Sell", 100.0, 2.0, 1)).unwrap();
    assert_eq!(trades[0].fees, amt(0.4));
}

#[test]
fn net_mode_reversal() {
    let mut account = net_account();
    account.update_position_from_client_trade(eth_trade(Side::Buy, 100.0, 10.0)).unwrap();
    assert!(account.positions.has_long_position(&eth_usdt()));

    account.update_position_from_client_trade(eth_trade(Side::Sell, 100.0, 15.0)).unwrap();

    assert!(!account.positions.has_long_position(&eth_usdt()));
    let short = account.positions.get_perpetual(Side::Sell, &eth_usdt()).unwrap();
    assert_eq!(short.meta.current_size, amt(5.0));
    assert_eq!(short.meta.current_avg_price, amt(100.0));
    assert_eq!(short.meta.side, Side::Sell);

    assert_eq!(account.closed_positions.perpetual_pos_long.len(), 1);
    let closed = &account.closed_positions.perpetual_pos_long[0];
    assert_eq!(closed.meta.realised_pnl, 0);
    assert_eq!(closed.meta.current_size, 0);
    assert!(account.closed_positions.perpetual_pos_short.is_empty());
}

#[test]
fn net_mode_close_realises_the_profit() {
    let mut account = net_account();
    account.update_position_from_client_trade(eth_trade(Side::Sell, 100.0, 4.0)).unwrap();
    account.update_position_from_client_trade(eth_trade(Side::Buy, 90.0, 4.0)).unwrap();
    assert!(!account.positions.has_short_position(&eth_usdt()));
    assert!(!account.positions.has_long_position(&eth_usdt()));
    let closed = &account.closed_positions.perpetual_pos_short[0];
    // (90 - 100) * 4, as the position records it.
    assert_eq!(closed.meta.realised_pnl, amt(-40.0));
}

#[test]
fn net_mode_never_holds_both_sides() {
    let mut account = net_account();
    let steps = [
        (Side::Buy, 3.0),
        (Side::Sell, 1.0),
        (Side::Sell, 2.0),
        (Side::Sell, 5.0),
        (Side::Buy, 7.0),
        (Side::Buy, 1.0),
        (Side::Sell, 4.0),
    ];
    for (side, size) in steps {
        account.update_position_from_client_trade(eth_trade(side, 100.0, size)).unwrap();
        let long = account.positions.has_long_position(&eth_usdt());
        let short = account.positions.has_short_position(&eth_usdt());
        assert!(!(long && short));
    }
    let short = account.positions.get_perpetual(Side::Sell, &eth_usdt()).unwrap();
    assert_eq!(short.meta.current_size, amt(1.0));
}

#[test]
fn long_short_mode_books_both_sides() {
    let mut account = account_with(config(PositionDirectionMode::LongShort, PositionMarginMode::Isolated, 1.0), 100.0, 100.0);
    account.update_position_from_client_trade(eth_trade(Side::Buy, 100.0, 3.0)).unwrap();
    account.update_position_from_client_trade(eth_trade(Side::Sell, 110.0, 2.0)).unwrap();
    account.update_position_from_client_trade(eth_trade(Side::Sell, 120.0, 2.0)).unwrap();
    let long = account.positions.get_perpetual(Side::Buy, &eth_usdt()).unwrap();
    let short = account.positions.get_perpetual(Side::Sell, &eth_usdt()).unwrap();
    assert_eq!(long.meta.current_size, amt(3.0));
    assert_eq!(short.meta.current_size, amt(4.0));
    assert_eq!(short.meta.current_avg_price, amt(115.0));
    match account.get_position_both_ways(&eth_usdt()).unwrap() {
        (Some(Position::Perpetual(l)), Some(Position::Perpetual(s))) => {
            assert_eq!(l, long);
            assert_eq!(s, short);
        }
        _ => panic!("both positions are held"),
    }
}

#[test]
fn reduce_only_buy_is_refused_while_long() {
    let mut account = net_account();
    account.update_position_from_client_trade(eth_trade(Side::Buy, 100.0, 10.0)).unwrap();

    let result = account.open_order(request(Side::Buy, OrderInstruction::Limit, 50.0, 1.0, true));
    assert_eq!(result, Err(ExchangeError::InvalidDirection));

    // A plain buy adds to the long position and is admitted.
    assert!(account.open_order(request(Side::Buy, OrderInstruction::Limit, 50.0, 1.0, false)).is_ok());
    // A plain sell is against the position held.
    let sell = account.open_order(request(Side::Sell, OrderInstruction::Limit, 150.0, 1.0, false));
    assert_eq!(sell, Err(ExchangeError::InvalidDirection));
    // A reduce-only sell reduces it.
    assert!(account.open_order(request(Side::Sell, OrderInstruction::Limit, 150.0, 1.0, true)).is_ok());
}

#[test]
fn long_short_mode_has_no_direction_check() {
    let mut account = account_with(config(PositionDirectionMode::LongShort, PositionMarginMode::Isolated, 1.0), 100.0, 100.0);
    account.update_position_from_client_trade(eth_trade(Side::Buy, 100.0, 10.0)).unwrap();
    assert!(account.open_order(request(Side::Buy, OrderInstruction::Limit, 50.0, 1.0, true)).is_ok());
    assert!(account.open_order(request(Side::Sell, OrderInstruction::Limit, 150.0, 1.0, false)).is_ok());
}

#[test]
fn spot_is_unsupported() {
    let mut account = net_account();
    let mut trade = eth_trade(Side::Buy, 100.0, 1.0);
    trade.instrument = Instrument::new("ETH", "USDT", InstrumentKind::Spot);
    assert_eq!(account.update_position_from_client_trade(trade.clone()), Err(ExchangeError::UnsupportedInstrumentKind));
    assert_eq!(account.update_position_net_mode(trade.clone()), Err(ExchangeError::UnsupportedInstrumentKind));
    assert_eq!(account.update_position_long_short_mode(trade.clone()), Err(ExchangeError::UnsupportedInstrumentKind));
    assert_eq!(account.apply_trade_changes(&trade).unwrap_err(), ExchangeError::UnsupportedInstrumentKind);

    let mut spot = request(Side::Buy, OrderInstruction::Limit, 1.0, 1.0, false);
    spot.instrument = Instrument::new("ETH", "USDT", InstrumentKind::Spot);
    assert_eq!(account.open_order(spot), Err(ExchangeError::UnsupportedInstrumentKind));
    assert!(matches!(
        account.get_position_long(&Instrument::new("ETH", "USDT", InstrumentKind::Spot)),
        Err(ExchangeError::InvalidInstrument)
    ));
    assert_eq!(
        account.get_position_short(&Instrument::new("ETH", "USDT", InstrumentKind::Future)),
        Err(ExchangeError::UnsupportedInstrumentKind)
    );
}

#[test]
fn cross_margin_is_not_implemented() {
    let mut account = account_with(config(PositionDirectionMode::Net, PositionMarginMode::Cross, 1.0), 100.0, 100.0);
    let result = account.open_order(request(Side::Buy, OrderInstruction::Limit, 1.0, 2.0, false));
    assert!(matches!(result, Err(ExchangeError::NotImplemented(_))));
    assert!(account.fetch_orders_open().is_empty());
    assert_eq!(balance(&account, "USDT").available, amt(10_000.0));
}

#[test]
fn reservation_scales_with_the_leverage_and_the_release_does_not() {
    let mut account = account_with(config(PositionDirectionMode::Net, PositionMarginMode::Isolated, 2.0), 100.0, 100.0);
    let opened = account.open_order(request(Side::Buy, OrderInstruction::Limit, 10.0, 3.0, false)).unwrap();
    // 10 * 3 * 2 reserved.
    assert_eq!(balance(&account, "USDT").available, amt(10_000.0 - 60.0));
    account.atomic_cancel(cancel_by_id(Side::Buy, opened.state.id)).unwrap();
    // 10 * 3 released.
    assert_eq!(balance(&account, "USDT").available, amt(10_000.0 - 30.0));
    assert_eq!(balance(&account, "USDT").total, amt(10_000.0));
}

#[test]
fn partial_fill_then_cancel_releases_the_remainder() {
    let mut account = net_account();
    let opened = account.open_order(request(Side::Buy, OrderInstruction::Limit, 50.0, 4.0, false)).unwrap();
    assert_eq!(balance(&account, "USDT").available, amt(10_000.0 - 200.0));
    let trades = account.match_orders(&market("Sell", 50.0, 1.0, 3)).unwrap();
    assert_eq!(trades.len(), 1);
    assert_eq!(trades[0].size, amt(1.0));
    let resting = account.fetch_orders_open();
    assert_eq!(resting.len(), 1);
    assert_eq!(resting[0].state.filled_quantity, amt(1.0));
    let fee = amt(0.05);
    assert_eq!(balance(&account, "USDT").available, amt(10_000.0 - 200.0) - fee);
    account.atomic_cancel(cancel_by_id(Side::Buy, opened.state.id)).unwrap();
    // 50 * 3 comes back.
    assert_eq!(balance(&account, "USDT").available, amt(10_000.0 - 50.0) - fee);
    assert_eq!(balance(&account, "USDT").total, amt(10_000.0 - 50.0) - fee);
}

#[test]
fn cancel_of_a_filled_order_is_not_found() {
    let mut account = net_account();
    let opened = account.open_order(request(Side::Buy, OrderInstruction::Limit, 50.0, 1.0, false)).unwrap();
    account.match_orders(&market("Sell", 50.0, 1.0, 3)).unwrap();
    let mut cancel = cancel_by_id(Side::Buy, opened.state.id);
    cancel.cid = Some(ClientOrderId("other".into()));
    let result = account.atomic_cancel(cancel.clone());
    assert_eq!(
        result,
        Err(ExchangeError::OrderNotFound { client_order_id: cancel.cid, order_id: Some(opened.state.id) })
    );
}

#[test]
fn events_follow_the_order_of_each_operation() {
    let mut account = net_account();
    let opened = account.open_order(request(Side::Buy, OrderInstruction::Limit, 99.0, 2.0, false)).unwrap();
    let second = account.open_order(request(Side::Buy, OrderInstruction::Limit, 98.0, 1.0, false)).unwrap();
    let refused = account.open_order(request(Side::Buy, OrderInstruction::Limit, 0.0, 1.0, false));
    assert!(matches!(refused, Err(ExchangeError::InvalidRequestOpen(_))));
    account.atomic_cancel(cancel_by_id(Side::Buy, second.state.id)).unwrap();
    account.handle_trade_data(market("Sell", 99.0, 2.0, 9)).unwrap();

    let events = account.drain_events();
    assert_eq!(
        kinds(&events),
        vec!["balance", "open", "balance", "open", "cancelled", "balance", "trade", "balances"]
    );
    match &events[1].kind {
        AccountEventKind::OrdersOpen(orders) => assert_eq!(orders, &vec![opened.clone()]),
        _ => unreachable!(),
    }
    match &events[0].kind {
        AccountEventKind::Balance(reported) => {
            assert_eq!(reported.token, Token::new("USDT"));
            assert_eq!(reported.balance.available, amt(10_000.0 - 198.0));
        }
        _ => unreachable!(),
    }
    match &events[7].kind {
        AccountEventKind::Balances(reported) => {
            assert_eq!(reported.len(), 2);
            assert_eq!(reported[0].token, Token::new("ETH"));
            assert_eq!(reported[1].token, Token::new("USDT"));
        }
        _ => unreachable!(),
    }
    assert!(account.drain_events().is_empty());
}

#[test]
fn a_batch_goes_on_after_a_refusal() {
    let mut account = net_account();
    let mut too_big = request(Side::Buy, OrderInstruction::Limit, 100.0, 1_000.0, false);
    too_big.cid = None;
    let results = account.open_orders(vec![
        request(Side::Buy, OrderInstruction::Limit, 10.0, 1.0, false),
        too_big,
        request(Side::Sell, OrderInstruction::Limit, 200.0, 1.0, false),
    ]);
    assert_eq!(results.len(), 3);
    assert!(results[0].is_ok());
    assert_eq!(results[1], Err(ExchangeError::InsufficientBalance(Token::new("USDT"))));
    assert!(results[2].is_ok());
    let first = results[0].clone().unwrap().state.id;
    let third = results[2].clone().unwrap().state.id;
    assert!(first.0 < third.0);
    assert_eq!(account.fetch_orders_open().len(), 2);
}

#[test]
fn cancel_all_cancels_every_resting_order() {
    let mut account = net_account();
    let before_usdt = balance(&account, "USDT");
    let before_eth = balance(&account, "ETH");
    account.open_order(request(Side::Buy, OrderInstruction::Limit, 10.0, 1.0, false)).unwrap();
    account.open_order(request(Side::Sell, OrderInstruction::Limit, 200.0, 1.0, false)).unwrap();
    account.open_order(request(Side::Buy, OrderInstruction::Limit, 11.0, 2.0, false)).unwrap();
    let cancelled = account.cancel_orders_all().unwrap();
    assert_eq!(cancelled.len(), 3);
    assert!(account.fetch_orders_open().is_empty());
    assert_eq!(balance(&account, "USDT"), before_usdt);
    assert_eq!(balance(&account, "ETH"), before_eth);
    assert_eq!(account.cancel_orders_all(), Ok(vec![]));
}

#[test]
fn open_orders_are_refused_for_each_defect() {
    let mut account = net_account();
    let reason = |r: Result<Order<Open>, ExchangeError>| match r {
        Err(ExchangeError::InvalidRequestOpen(reason)) => reason,
        other => panic!("expected an invalid request, got {:?}", other),
    };
    let mut bad_cid = request(Side::Buy, OrderInstruction::Limit, 1.0, 1.0, false);
    bad_cid.cid = Some(ClientOrderId("has a blank".into()));
    assert_eq!(reason(account.open_order(bad_cid)), "invalid client order id");
    let mut empty_cid = request(Side::Buy, OrderInstruction::Limit, 1.0, 1.0, false);
    empty_cid.cid = Some(ClientOrderId(String::new()));
    assert_eq!(reason(account.open_order(empty_cid)), "invalid client order id");
    assert_eq!(
        reason(account.open_order(request(Side::Buy, OrderInstruction::Limit, -1.0, 1.0, false))),
        "price must be positive"
    );
    assert_eq!(
        reason(account.open_order(request(Side::Buy, OrderInstruction::Limit, 1.0, 0.0, false))),
        "size must be positive"
    );
    let mut same = request(Side::Buy, OrderInstruction::Limit, 1.0, 1.0, false);
    same.instrument = Instrument::new("ETH", "ETH", InstrumentKind::Perpetual);
    assert_eq!(reason(account.open_order(same)), "base and quote tokens must differ");
    let mut huge = request(Side::Buy, OrderInstruction::Limit, 1.0, 1.0, false);
    huge.state.price = i64::MAX;
    huge.state.size = i64::MAX;
    assert_eq!(reason(account.open_order(huge)), "order value out of range");
    assert!(account.events.is_empty());
}

#[test]
fn unknown_tokens_and_books_are_reported() {
    let mut account = net_account();
    let mut other = request(Side::Buy, OrderInstruction::Limit, 1.0, 1.0, false);
    other.instrument = Instrument::new("ETH", "DAI", InstrumentKind::Perpetual);
    assert_eq!(account.open_order(other), Err(ExchangeError::UnknownToken(Token::new("DAI"))));

    account.deposit_coin(Token::new("DAI"), amt(5.0)).unwrap();
    let mut no_book = request(Side::Buy, OrderInstruction::Limit, 1.0, 1.0, false);
    no_book.instrument = Instrument::new("ETH", "DAI", InstrumentKind::Perpetual);
    assert!(matches!(account.open_order(no_book), Err(ExchangeError::InvalidInstrument)));

    let mut cancel = cancel_by_id(Side::Buy, OrderId(1));
    cancel.instrument = Instrument::new("ETH", "DAI", InstrumentKind::Perpetual);
    assert!(matches!(account.atomic_cancel(cancel), Err(ExchangeError::InvalidInstrument)));

    let mut bad_symbol = market("Sell", 1.0, 1.0, 1);
    bad_symbol.symbol = "ETHUSDT".to_string();
    assert!(matches!(account.match_orders(&bad_symbol), Err(ExchangeError::InvalidInstrument)));
    assert_eq!(account.get_balance(&Token::new("XRP")), Err(ExchangeError::UnknownToken(Token::new("XRP"))));
}

#[test]
fn cancel_requests_are_refused_for_each_defect() {
    let reason = |r: Result<(), ExchangeError>| match r {
        Err(ExchangeError::InvalidRequestCancel(reason)) => reason,
        other => panic!("expected an invalid request, got {:?}", other),
    };
    let mut neither = cancel_by_id(Side::Buy, OrderId(1));
    neither.state.id = None;
    assert_eq!(
        reason(Account::validate_order_request_cancel(&neither)),
        "order id and client order id are both missing"
    );
    assert_eq!(
        reason(Account::validate_order_request_cancel(&cancel_by_id(Side::Buy, OrderId(0)))),
        "order id is invalid"
    );
    let mut bad_cid = cancel_by_id(Side::Buy, OrderId(1));
    bad_cid.cid = Some(ClientOrderId("x".repeat(21)));
    assert_eq!(reason(Account::validate_order_request_cancel(&bad_cid)), "invalid client order id");
    let mut same = cancel_by_id(Side::Buy, OrderId(1));
    same.instrument = Instrument::new("A", "A", InstrumentKind::Perpetual);
    assert_eq!(reason(Account::validate_order_request_cancel(&same)), "base and quote tokens must differ");
    let mut by_cid = cancel_by_id(Side::Buy, OrderId(1));
    by_cid.state.id = None;
    by_cid.cid = Some(ClientOrderId("x".repeat(20)));
    assert!(Account::validate_order_request_cancel(&by_cid).is_ok());
}

#[test]
fn cancel_by_client_order_id() {
    let mut account = net_account();
    let mut first = request(Side::Buy, OrderInstruction::Limit, 10.0, 1.0, false);
    first.cid = Some(ClientOrderId("first".into()));
    let mut second = request(Side::Buy, OrderInstruction::Limit, 11.0, 1.0, false);
    second.cid = Some(ClientOrderId("second".into()));
    account.open_order(first).unwrap();
    let kept = account.open_order(second).unwrap();
    let mut cancel = cancel_by_id(Side::Buy, OrderId(1));
    cancel.state.id = None;
    cancel.cid = Some(ClientOrderId("first".into()));
    let cancelled = account.atomic_cancel(cancel).unwrap();
    assert_eq!(cancelled.cid, Some(ClientOrderId("first".into())));
    assert_eq!(account.fetch_orders_open(), vec![kept]);
}

#[test]
fn backtest_stamps_the_request_with_the_latency() {
    let mut account = net_account();
    account.orders.latency.current_value = 25;
    let opened = account.open_order(request(Side::Buy, OrderInstruction::Limit, 10.0, 1.0, false)).unwrap();
    assert_eq!(opened.timestamp, 1_025);

    let mut online_config = config(PositionDirectionMode::Net, PositionMarginMode::Isolated, 1.0);
    online_config.execution_mode = SandboxMode::Online;
    let mut online = account_with(online_config, 100.0, 100.0);
    online.orders.latency.current_value = 25;
    let opened = online.open_order(request(Side::Buy, OrderInstruction::Limit, 10.0, 1.0, false)).unwrap();
    assert_eq!(opened.timestamp, 1_000);
    online.handle_trade_data(market("Sell", 1.0, 0.0, -5)).unwrap();
    assert!(online.get_exchange_ts().unwrap() >= 0);
}

#[test]
fn the_account_needs_its_parts() {
    let missing = Account::initiate().build();
    assert!(matches!(missing, Err(ExchangeError::BuilderIncomplete(ref part)) if part == "config is required"));
    let no_orders = Account::initiate()
        .config(config(PositionDirectionMode::Net, PositionMarginMode::Isolated, 1.0))
        .build();
    assert!(matches!(no_orders, Err(ExchangeError::BuilderIncomplete(ref part)) if part == "orders are required"));
    let account = net_account();
    assert_eq!(account.machine_id, 0);
    assert_eq!(account.exchange_timestamp, 0);
    let copy = account.clone();
    assert_ne!(copy.current_session, account.current_session);
    assert_eq!(copy.get_balance(&Token::new("ETH")), account.get_balance(&Token::new("ETH")));
    assert_eq!(copy.config, account.config);
    assert_eq!(copy.orders, account.orders);
}

#[test]
fn leverage_above_the_account_rate_is_refused() {
    let account = net_account();
    let mut position = account.create_perpetual_position(&eth_trade(Side::Buy, 100.0, 1.0), amt(1.0));
    assert_eq!(position.liquidation_price, 0);
    assert_eq!(position.margin, 0);
    assert!(account.enforce_leverage_limits(&position).is_ok());
    position.pos_config.leverage = amt(1.5);
    assert!(matches!(account.enforce_leverage_limits(&position), Err(ExchangeError::InvalidLeverage)));
}

#[test]
fn topup_refusals() {
    let mut account = net_account();
    assert_eq!(
        account.topup_bitcoin_with_usdt(amt(1.0), amt(50_000.0)),
        Err(ExchangeError::UnknownToken(Token::new("BTC")))
    );
    account.deposit_bitcoin(0).unwrap();
    assert_eq!(
        account.topup_bitcoin_with_usdt(amt(20_000.0), amt(50_000.0)),
        Err(ExchangeError::InsufficientBalance(Token::new("USDT")))
    );
    assert!(matches!(account.topup_bitcoin_with_usdt(amt(1.0), 0), Err(ExchangeError::InternalError(_))));
    let both = account.topup_bitcoin_with_usdt(amt(100.0), amt(50_000.0)).unwrap();
    assert_eq!(both[0].token, Token::new("USDT"));
    assert_eq!(both[0].balance.available, amt(9_900.0));
    assert_eq!(both[1].token, Token::new("BTC"));
    assert_eq!(both[1].balance.total, amt(0.002));
}

#[test]
fn deposits_stop_at_the_first_that_overflows() {
    let mut account = net_account();
    let result = account.deposit_multiple_coins(vec![
        (Token::new("USDT"), amt(1.0)),
        (Token::new("ETH"), i64::MAX),
        (Token::new("USDT"), amt(1.0)),
    ]);
    assert!(matches!(result, Err(ExchangeError::InternalError(_))));
    assert_eq!(balance(&account, "USDT").total, amt(10_001.0));
    assert_eq!(balance(&account, "ETH").total, amt(10.0));
    let made = account
        .deposit_multiple_coins(vec![(Token::new("USDT"), amt(1.0)), (Token::new("SOL"), amt(2.0))])
        .unwrap();
    assert_eq!(made.len(), 2);
    assert_eq!(made[0].balance.total, amt(10_002.0));
    assert_eq!(made[1].balance.total, amt(2.0));
    assert_eq!(made[1].balance.current_price, amt(1.0));
    assert!(made[1].balance.time >= 0);
}
