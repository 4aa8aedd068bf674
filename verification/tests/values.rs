use sandbox_exchange::config::{
    AccountConfig, CommissionRates, FeeEntry, PositionDirectionMode, PositionMarginMode, SandboxMode,
};
use sandbox_exchange::error::ExchangeError;
use sandbox_exchange::instrument::{Exchange, ExchangeKind, Instrument, InstrumentKind, Side, Token};
use sandbox_exchange::order::{pack_id, ClientOrderId, OrderId, OrderRole};
use sandbox_exchange::position::{AccountClosedPositions, AccountPositions, FuturesPosition, Position};
use sandbox_exchange::position_meta::PositionMeta;
use sandbox_exchange::request_id::RequestId;
use sandbox_exchange::subscription::SubscriptionId;
use sandbox_exchange::trade::{str_equal, ClientTrade, ClientTradeId, MarketTrade};

fn amt(x: f64) -> i64 {
    (x * 100_000_000.0).round() as i64
}

fn config() -> AccountConfig {
    AccountConfig {
        execution_mode: SandboxMode::Backtest,
        position_direction_mode: PositionDirectionMode::Net,
        position_margin_mode: PositionMarginMode::Isolated,
        account_leverage_rate: amt(4.0),
        funding_rate: amt(0.0001),
        fees_book: vec![
            FeeEntry {
                kind: InstrumentKind::Perpetual,
                rates: CommissionRates { maker_fees: amt(0.001), taker_fees: amt(0.002) },
            },
            FeeEntry { kind: InstrumentKind::Spot, rates: CommissionRates { maker_fees: 1, taker_fees: 2 } },
            FeeEntry { kind: InstrumentKind::Perpetual, rates: CommissionRates { maker_fees: 3, taker_fees: 4 } },
        ],
    }
}

fn trade(side: Side, kind: InstrumentKind) -> ClientTrade {
    ClientTrade {
        exchange: Exchange::SandBox,
        timestamp: 10,
        trade_id: ClientTradeId(1),
        order_id: OrderId(1),
        cid: None,
        instrument: Instrument::new("BTC", "USDT", kind),
        side,
        price: amt(100.0),
        size: amt(2.0),
        fees: amt(0.1),
    }
}

#[test]
fn ids_pack_time_machine_and_counter() {
    assert_eq!(pack_id(0, 0, 0), 0);
    assert_eq!(pack_id(1, 0, 0), 1 << 22);
    assert_eq!(pack_id(0, 1, 0), 1 << 12);
    assert_eq!(pack_id(0, 0, 5), 5);
    assert_eq!(pack_id(3, 1023, 4095), (3 << 22) | (1023 << 12) | 4095);
    // Bits beyond each field are dropped.
    assert_eq!(pack_id(0, 1024, 4096), 0);
    assert_eq!(pack_id(1 << 41, 0, 0), 0);
    assert_eq!(OrderId::new(1625247600, 1, 1).value(), (1625247600u64 << 22) | (1 << 12) | 1);
    assert_eq!(RequestId::at(7, 2, 3).value(), (7 << 22) | (2 << 12) | 3);
}

#[test]
fn a_request_id_carries_the_clock() {
    let first = RequestId::new(5, 9);
    assert_eq!(first.value() & 0xFFF, 9);
    assert_eq!((first.value() >> 12) & 0x3FF, 5);
    // Any time after the year 2020, in milliseconds.
    assert!(first.value() >> 22 > 1_577_836_800_000 & 0x1FF_FFFF_FFFF);
    let second = RequestId::new(5, 10);
    assert!(second > first);
}

#[test]
fn client_order_ids_are_short_printable_and_unbroken() {
    assert!(ClientOrderId::validate_id_format("validCID123"));
    assert!(ClientOrderId::validate_id_format("a"));
    assert!(ClientOrderId::validate_id_format("!~-_#"));
    assert!(ClientOrderId::validate_id_format(&"x".repeat(20)));
    assert!(!ClientOrderId::validate_id_format(&"x".repeat(21)));
    assert!(!ClientOrderId::validate_id_format("ars3214321431234rafsftdarstdars"));
    assert!(!ClientOrderId::validate_id_format(""));
    assert!(!ClientOrderId::validate_id_format("a b"));
    assert!(!ClientOrderId::validate_id_format("tab\t"));
    assert!(!ClientOrderId::validate_id_format("币"));
    assert!(!ClientOrderId::validate_id_format("del\u{7f}"));
    assert!(ClientOrderId("abc".into()).same(&ClientOrderId("abc".into())));
    assert!(!ClientOrderId("abc".into()).same(&ClientOrderId("abd".into())));
}

#[test]
fn symbols_are_split_at_the_first_underscore() {
    let mut trade = MarketTrade {
        exchange: "Binance".into(),
        symbol: "ETH_USDT".into(),
        timestamp: 1,
        price: 1,
        side: "Sell".into(),
        amount: 1,
    };
    assert_eq!(trade.parse_base(), Some("ETH".to_string()));
    assert_eq!(trade.parse_quote(), Some("USDT".to_string()));
    assert_eq!(trade.parse_kind(), InstrumentKind::Perpetual);
    assert_eq!(trade.parse_side(), Some(Side::Sell));
    assert_eq!(trade.parse_instrument(), Some(Instrument::new("ETH", "USDT", InstrumentKind::Perpetual)));
    trade.symbol = "A_B_C".into();
    assert_eq!(trade.parse_base(), Some("A".to_string()));
    assert_eq!(trade.parse_quote(), Some("B_C".to_string()));
    trade.symbol = "币_USDT".into();
    assert_eq!(trade.parse_base(), Some("币".to_string()));
    assert_eq!(trade.parse_quote(), Some("USDT".to_string()));
    trade.symbol = "_".into();
    assert_eq!(trade.parse_instrument(), Some(Instrument::new("", "", InstrumentKind::Perpetual)));
    trade.symbol = "ETHUSDT".into();
    assert_eq!(trade.parse_base(), None);
    assert_eq!(trade.parse_quote(), None);
    assert_eq!(trade.parse_instrument(), None);
    trade.side = "Buy".into();
    assert_eq!(trade.parse_side(), Some(Side::Buy));
    trade.side = "SELL".into();
    assert_eq!(trade.parse_side(), None);
    assert!(str_equal("", ""));
    assert!(str_equal("币a", "币a"));
    assert!(!str_equal("ab", "abc"));
    assert!(!str_equal("ab", "ac"));
}

#[test]
fn names_and_sides() {
    assert_eq!(ExchangeKind::Simulated.as_str(), "simulated");
    assert_eq!(ExchangeKind::Ftx.as_str(), "ftx");
    assert_eq!(Side::Buy.opposite(), Side::Sell);
    assert_eq!(Side::Sell.opposite(), Side::Buy);
    assert_eq!(Side::Buy.as_str(), "Buy");
    assert_eq!(Side::Sell.as_str(), "Sell");
    assert!(Token::new("BTC").same(&Token("BTC".into())));
    assert!(!Token::new("BTC").same(&Token::new("btc")));
    let eth = Instrument::new("ETH", "USDT", InstrumentKind::Perpetual);
    assert!(eth.same(&eth.clone()));
    assert!(!eth.same(&Instrument::new("ETH", "USDT", InstrumentKind::Future)));
    assert!(!eth.same(&Instrument::new("ETH", "USD", InstrumentKind::Perpetual)));
    assert_eq!(SubscriptionId("trades|ETH".into()).as_text(), "trades|ETH");
}

#[test]
fn the_first_entry_of_a_kind_gives_the_rates() {
    let config = config();
    assert!(config.is_valid());
    assert_eq!(config.get_maker_fee_rate(InstrumentKind::Perpetual), Ok(amt(0.001)));
    assert_eq!(config.get_taker_fee_rate(InstrumentKind::Perpetual), Ok(amt(0.002)));
    assert_eq!(config.fees_percent(InstrumentKind::Spot, OrderRole::Taker), Ok(2));
    assert_eq!(config.fees_percent(InstrumentKind::Spot, OrderRole::Maker), Ok(1));
    assert_eq!(config.commission_rates(InstrumentKind::Future), Err(ExchangeError::UnsupportedInstrumentKind));
    assert_eq!(config.clone(), config);
    let mut low = config.clone();
    low.account_leverage_rate = amt(0.5);
    assert!(!low.is_valid());
    let mut high = config.clone();
    high.fees_book[2].rates.taker_fees = amt(1.5);
    assert!(!high.is_valid());
    let mut negative = config.clone();
    negative.fees_book[0].rates.maker_fees = -1;
    assert!(!negative.is_valid());
}

#[test]
fn a_new_position_has_margin_fees_and_liquidation_price() {
    let positions = AccountPositions::init();
    let long = positions
        .build_new_perpetual_position(
            &config(),
            &trade(Side::Buy, InstrumentKind::Perpetual),
            PositionMarginMode::Isolated,
            PositionDirectionMode::Net,
            99,
        )
        .unwrap();
    // Notional 200 at leverage 4: margin 50, a quarter of the notional.
    assert_eq!(long.margin, amt(50.0));
    assert_eq!(long.liquidation_price, amt(75.0));
    // 200 * (0.001 + 0.002 + 0.0001)
    assert_eq!(long.meta.current_fees_total, amt(0.62));
    assert_eq!(long.meta.enter_ts, 99);
    assert_eq!(long.meta.exchange, Exchange::SandBox);
    assert_eq!(long.meta.current_size, amt(2.0));
    assert_eq!(long.pos_config.leverage, amt(4.0));
    let short = positions
        .build_new_perpetual_position(
            &config(),
            &trade(Side::Sell, InstrumentKind::Perpetual),
            PositionMarginMode::Isolated,
            PositionDirectionMode::LongShort,
            99,
        )
        .unwrap();
    assert_eq!(short.liquidation_price, amt(125.0));
    assert_eq!(short.pos_config.position_mode, PositionDirectionMode::LongShort);

    let no_rates = positions.build_new_perpetual_position(
        &config(),
        &trade(Side::Buy, InstrumentKind::Future),
        PositionMarginMode::Isolated,
        PositionDirectionMode::Net,
        99,
    );
    assert_eq!(no_rates, Err(ExchangeError::UnsupportedInstrumentKind));
    let mut nothing = trade(Side::Buy, InstrumentKind::Perpetual);
    nothing.size = 0;
    let refused = positions.build_new_perpetual_position(
        &config(),
        &nothing,
        PositionMarginMode::Isolated,
        PositionDirectionMode::Net,
        99,
    );
    assert!(matches!(refused, Err(ExchangeError::InternalError(_))));
}

#[test]
fn positions_are_kept_one_per_instrument() {
    let mut positions = AccountPositions::init();
    let eth = Instrument::new("ETH", "USDT", InstrumentKind::Future);
    let btc = Instrument::new("BTC", "USDT", InstrumentKind::Future);
    assert!(!positions.has_position(&eth));
    let mut first = trade(Side::Buy, InstrumentKind::Future);
    first.instrument = eth.clone();
    positions.update_position(Position::Future(FuturesPosition { meta: PositionMeta::create_from_trade(&first) }));
    let mut second = trade(Side::Sell, InstrumentKind::Future);
    second.instrument = btc.clone();
    positions.update_position(Position::Future(FuturesPosition { meta: PositionMeta::create_from_trade(&second) }));
    first.size = amt(9.0);
    positions.update_position(Position::Future(FuturesPosition { meta: PositionMeta::create_from_trade(&first) }));
    assert_eq!(positions.futures_pos.len(), 2);
    assert_eq!(positions.futures_pos[0].meta.current_size, amt(9.0));
    assert!(positions.has_position(&eth));
    assert!(positions.has_position(&btc));
    assert!(!positions.has_position(&Instrument::new("ETH", "USDT", InstrumentKind::Spot)));
    assert!(!positions.has_position(&Instrument::new("ETH", "USDT", InstrumentKind::Perpetual)));

    let perpetual = trade(Side::Sell, InstrumentKind::Perpetual);
    let account_config = config();
    let position = positions
        .build_new_perpetual_position(
            &account_config,
            &perpetual,
            PositionMarginMode::Isolated,
            PositionDirectionMode::Net,
            1,
        )
        .unwrap();
    positions.update_position(Position::Perpetual(position.clone()));
    assert!(positions.has_short_position(&perpetual.instrument));
    assert!(!positions.has_long_position(&perpetual.instrument));
    assert!(positions.has_position(&perpetual.instrument));
    assert_eq!(positions.remove_perpetual(Side::Buy, &perpetual.instrument), None);
    assert_eq!(positions.remove_perpetual(Side::Sell, &perpetual.instrument), Some(position.clone()));
    assert!(!positions.has_position(&perpetual.instrument));
    let mut closed = AccountClosedPositions::init();
    closed.archive(position.clone());
    closed.insert_perpetual_pos_long(position.clone());
    assert_eq!(closed.perpetual_pos_short, vec![position.clone()]);
    assert_eq!(closed.perpetual_pos_long, vec![position]);
}
