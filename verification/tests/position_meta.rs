use sandbox_exchange::error::ExchangeError;
use sandbox_exchange::instrument::{Exchange, Instrument, InstrumentKind, Side};
use sandbox_exchange::order::OrderId;
use sandbox_exchange::position_meta::{PositionId, PositionMeta, PositionMetaBuilder};
use sandbox_exchange::trade::{ClientTrade, ClientTradeId};

fn amt(x: f64) -> i64 {
    (x * 100_000_000.0).round() as i64
}

/// A buy of 1 BTC at 50,000 with a fee of 2.
fn create_test_trade() -> ClientTrade {
    ClientTrade {
        exchange: Exchange::Hourglass,
        timestamp: 1625247600,
        trade_id: ClientTradeId(1),
        order_id: OrderId::new(1625247600, 1, 1),
        cid: None,
        instrument: Instrument::new("BTC", "USDT", InstrumentKind::Spot),
        side: Side::Buy,
        price: amt(50_000.0),
        size: amt(1.0),
        fees: amt(2.0),
    }
}

#[test]
fn test_create_position_meta_from_trade() {
    let trade = create_test_trade();
    let position_meta = PositionMeta::create_from_trade(&trade);

    assert_eq!(position_meta.current_size, trade.size);
    assert_eq!(position_meta.current_avg_price, trade.price);
    assert_eq!(position_meta.current_symbol_price, amt(50000.0));
    assert_eq!(position_meta.current_fees_total, trade.fees);
}

#[test]
fn test_update_unrealised_pnl() {
    let mut meta = PositionMeta::create_from_trade(&create_test_trade());
    meta.update_unrealised_pnl().unwrap();

    assert_eq!(meta.unrealised_pnl, amt(0.0));
}

#[test]
fn test_update_realised_pnl_and_clear_position() {
    let mut meta = PositionMeta::create_from_trade(&create_test_trade());
    meta.update_realised_pnl(amt(55_000.0)).unwrap();

    assert_eq!(meta.realised_pnl, amt(5_000.0));
    assert_eq!(meta.current_size, amt(0.0));
    assert_eq!(meta.current_avg_price, amt(0.0));
    assert_eq!(meta.current_avg_price_gross, amt(0.0));
    assert_eq!(meta.current_fees_total, amt(0.0));
}

#[test]
fn position_meta_test_update_from_trade() {
    let mut meta = PositionMeta::create_from_trade(&create_test_trade());
    let new_trade = ClientTrade {
        exchange: Exchange::Hourglass,
        timestamp: 1625248600,
        trade_id: ClientTradeId(1),
        order_id: OrderId::new(1625247600, 1, 1),
        cid: None,
        instrument: Instrument::new("BTC", "USDT", InstrumentKind::Spot),
        side: Side::Buy,
        price: amt(60_000.0),
        size: amt(1.0),
        fees: amt(2.0),
    };

    meta.update_from_trade(&new_trade).unwrap();

    assert_eq!(meta.current_size, amt(2.0));
    assert_eq!(meta.current_avg_price, amt(55_000.0));
    assert_eq!(meta.current_symbol_price, amt(60_000.0));
    assert_eq!(meta.current_fees_total, amt(4.0));
}

#[test]
fn update_from_trade_sets_times_and_unrealised_profit() {
    let mut meta = PositionMeta::create_from_trade(&create_test_trade());
    let mut trade = create_test_trade();
    trade.timestamp = 1625248600;
    trade.price = amt(60_000.0);
    trade.size = amt(3.0);
    meta.update_from_trade(&trade).unwrap();
    // (50000 * 1 + 60000 * 3) / 4 = 57500; unrealised = (60000 - 57500) * 4
    assert_eq!(meta.current_avg_price_gross, amt(57_500.0));
    assert_eq!(meta.unrealised_pnl, amt(10_000.0));
    assert_eq!(meta.update_ts, 1625248600);
    assert_eq!(meta.enter_ts, 1625247600);
    assert_eq!(meta.realised_pnl, 0);
}

#[test]
fn opposite_trade_reduces_size_and_keeps_the_average() {
    let mut meta = PositionMeta::create_from_trade(&create_test_trade());
    let mut trade = create_test_trade();
    trade.side = Side::Sell;
    trade.price = amt(52_000.0);
    trade.size = amt(0.25);
    meta.update_from_trade(&trade).unwrap();
    assert_eq!(meta.current_size, amt(0.75));
    assert_eq!(meta.current_avg_price, amt(50_000.0));
    assert_eq!(meta.unrealised_pnl, amt(1_500.0));
}

#[test]
fn opposite_trade_of_the_whole_size_leaves_the_size() {
    let mut meta = PositionMeta::create_from_trade(&create_test_trade());
    let mut trade = create_test_trade();
    trade.side = Side::Sell;
    meta.update_from_trade(&trade).unwrap();
    assert_eq!(meta.current_size, amt(1.0));
}

#[test]
fn update_from_trade_refuses_what_is_not_representable() {
    let mut meta = PositionMeta::create_from_trade(&create_test_trade());
    let before = meta.clone();
    let mut trade = create_test_trade();
    trade.size = i64::MAX;
    let result = meta.update_from_trade(&trade);
    assert!(matches!(result, Err(ExchangeError::InternalError(_))));
    assert_eq!(meta, before);

    let mut negative = create_test_trade();
    negative.size = -1;
    assert!(matches!(meta.update_from_trade(&negative), Err(ExchangeError::InternalError(_))));
    assert_eq!(meta, before);
}

#[test]
fn realised_profit_is_negative_below_the_average() {
    let mut meta = PositionMeta::create_from_trade(&create_test_trade());
    meta.update_realised_pnl(amt(49_000.5)).unwrap();
    assert_eq!(meta.realised_pnl, amt(-999.5));
}

#[test]
fn create_from_trade_with_remaining_takes_the_given_size() {
    let trade = create_test_trade();
    let meta = PositionMeta::create_from_trade_with_remaining(&trade, amt(0.4));
    assert_eq!(meta.current_size, amt(0.4));
    assert_eq!(meta.side, Side::Buy);
    assert_eq!(meta.position_id, PositionId::new(&trade.instrument, trade.timestamp));
    assert_eq!(meta.unrealised_pnl, 0);
}

#[test]
fn builder_builds_what_was_set() {
    let trade = create_test_trade();
    let built = PositionMetaBuilder::new()
        .position_id(PositionId::new(&trade.instrument, 7))
        .enter_ts(7)
        .update_ts(8)
        .exchange(Exchange::SandBox)
        .instrument(trade.instrument.clone())
        .side(Side::Sell)
        .current_size(amt(3.0))
        .current_fees_total(amt(0.1))
        .current_avg_price_gross(amt(10.0))
        .current_symbol_price(amt(11.0))
        .current_avg_price(amt(10.0))
        .unrealised_pnl(amt(-3.0))
        .realised_pnl(amt(1.0))
        .build()
        .unwrap();
    assert_eq!(built.enter_ts, 7);
    assert_eq!(built.update_ts, 8);
    assert_eq!(built.side, Side::Sell);
    assert_eq!(built.current_size, amt(3.0));
    assert_eq!(built.unrealised_pnl, amt(-3.0));
    assert_eq!(built.realised_pnl, amt(1.0));
    assert_eq!(built.instrument, trade.instrument);
}

#[test]
fn builder_names_the_first_missing_field() {
    let empty = PositionMetaBuilder::new().build();
    assert_eq!(empty, Err(ExchangeError::BuilderIncomplete("position_id is required".to_string())));

    let trade = create_test_trade();
    let partial = PositionMetaBuilder::default()
        .position_id(PositionId::new(&trade.instrument, 7))
        .enter_ts(7)
        .update_ts(8)
        .exchange(Exchange::SandBox)
        .instrument(trade.instrument.clone())
        .side(Side::Sell)
        .current_size(1)
        .current_avg_price_gross(1)
        .build();
    assert_eq!(partial, Err(ExchangeError::BuilderIncomplete("current_fees_total is required".to_string())));
}
