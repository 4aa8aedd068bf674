use sandbox_exchange::balance::{AccountBalances, Balance, BalanceDelta, TokenBalance};
use sandbox_exchange::config::PositionMarginMode;
use sandbox_exchange::error::ExchangeError;
use sandbox_exchange::event::AccountEventKind;
use sandbox_exchange::instrument::{Exchange, Instrument, InstrumentKind, Side, Token};
use sandbox_exchange::order::{Open, Order, OrderId, OrderInstruction, OrderRole};
use sandbox_exchange::trade::{ClientTrade, ClientTradeId};

fn amt(x: f64) -> i64 {
    (x * 100_000_000.0).round() as i64
}

fn store_with_btc() -> (AccountBalances, Token) {
    let token = Token::new("BTC");
    let mut balances = AccountBalances::new();
    balances.set(&token, Balance::new(amt(100.0), amt(100.0), amt(1.0)));
    (balances, token)
}

fn order(side: Side, kind: InstrumentKind, price: f64, size: f64, filled: f64) -> Order<Open> {
    Order {
        instruction: OrderInstruction::Limit,
        exchange: Exchange::SandBox,
        instrument: Instrument::new("BTC", "USDT", kind),
        timestamp: 0,
        cid: None,
        side,
        state: Open {
            id: OrderId(1),
            price: amt(price),
            size: amt(size),
            filled_quantity: amt(filled),
            order_role: OrderRole::Maker,
        },
    }
}

fn trade(side: Side, kind: InstrumentKind, price: f64, size: f64, fees: f64) -> ClientTrade {
    ClientTrade {
        exchange: Exchange::SandBox,
        timestamp: 0,
        trade_id: ClientTradeId(1),
        order_id: OrderId(1),
        cid: None,
        instrument: Instrument::new("BTC", "USDT", kind),
        side,
        price: amt(price),
        size: amt(size),
        fees: amt(fees),
    }
}

#[test]
fn test_balance() {
    let (balances, token) = store_with_btc();
    assert_eq!(balances.balance(&token).unwrap().available, amt(100.0));
}

#[test]
fn test_balance_mut() {
    let (mut balances, token) = store_with_btc();
    let mut balance = balances.balance(&token).unwrap();
    balance.available = amt(50.0);
    balances.balance_mut(&token, balance).unwrap();

    assert_eq!(balances.balance(&token).unwrap().available, amt(50.0));
}

#[test]
fn test_fetch_all() {
    let (balances, _) = store_with_btc();
    let all_balances = balances.fetch_all();
    assert_eq!(all_balances.len(), 1);
    assert_eq!(all_balances[0].balance.available, amt(100.0));
}

#[test]
fn account_balances_test_has_sufficient_available_balance() {
    let (balances, token) = store_with_btc();
    assert!(balances.has_sufficient_available_balance(&token, amt(50.0)).is_ok());
    assert!(balances.has_sufficient_available_balance(&token, amt(150.0)).is_err());
}

#[test]
fn sufficiency_names_the_token() {
    let (balances, token) = store_with_btc();
    assert_eq!(balances.has_sufficient_available_balance(&token, amt(100.0)), Ok(()));
    assert_eq!(
        balances.has_sufficient_available_balance(&token, amt(100.0) + 1),
        Err(ExchangeError::InsufficientBalance(Token::new("BTC")))
    );
    assert_eq!(
        balances.has_sufficient_available_balance(&Token::new("ETH"), 0),
        Err(ExchangeError::UnknownToken(Token::new("ETH")))
    );
}

#[test]
fn a_new_store_is_empty_and_a_copy_is_apart() {
    let empty = AccountBalances::new();
    assert!(empty.fetch_all().is_empty());
    assert_eq!(empty.balance(&Token::new("BTC")), Err(ExchangeError::UnknownToken(Token::new("BTC"))));

    let (mut balances, token) = store_with_btc();
    let copy = balances.duplicate();
    balances.set(&token, Balance::new(1, 1, 1));
    balances.set(&Token::new("ETH"), Balance::new(2, 2, 2));
    assert_eq!(copy.balance(&token).unwrap().total, amt(100.0));
    assert_eq!(copy.fetch_all().len(), 1);
    assert_eq!(balances.fetch_all().len(), 2);
    let mut listed: Vec<TokenBalance> = balances.fetch_all();
    listed.sort_by(|a, b| a.token.0.cmp(&b.token.0));
    assert_eq!(listed[0], TokenBalance::new(Token::new("BTC"), Balance::new(1, 1, 1)));
    assert_eq!(listed[1], TokenBalance::new(Token::new("ETH"), Balance::new(2, 2, 2)));
}

#[test]
fn writing_over_a_missing_entry_is_refused() {
    let (mut balances, token) = store_with_btc();
    assert_eq!(
        balances.balance_mut(&Token::new("ETH"), Balance::new(1, 1, 1)),
        Err(ExchangeError::UnknownToken(Token::new("ETH")))
    );
    assert_eq!(balances.fetch_all().len(), 1);
    let previous = balances.balance_mut(&token, Balance::new(1, 2, 3)).unwrap();
    assert_eq!(previous, Balance::new(amt(100.0), amt(100.0), amt(1.0)));
    assert_eq!(balances.balance(&token).unwrap(), Balance { time: 0, current_price: 3, total: 1, available: 2 });
}

#[test]
fn a_delta_is_added_to_both_amounts() {
    let mut balance = Balance::new(amt(10.0), amt(4.0), amt(1.0));
    let after = balance.apply(BalanceDelta::new(amt(-1.0), amt(2.5))).unwrap();
    assert_eq!(after, balance);
    assert_eq!(after.total, amt(9.0));
    assert_eq!(after.available, amt(6.5));
    let kept = balance;
    assert_eq!(balance.apply(BalanceDelta::new(i64::MAX, 0)), None);
    assert_eq!(balance, kept);
    let mut owing = Balance::new(0, -1, 1);
    assert_eq!(owing.apply(BalanceDelta::new(0, i64::MIN)), None);
    assert_eq!(owing, Balance::new(0, -1, 1));
}

#[test]
fn an_update_creates_a_missing_entry() {
    let (mut balances, token) = store_with_btc();
    let created = balances.update_at(&Token::new("ETH"), BalanceDelta::new(amt(2.0), amt(1.0)), 77).unwrap();
    assert_eq!(created, Balance { time: 77, current_price: amt(1.0), total: amt(2.0), available: amt(1.0) });
    assert_eq!(balances.balance(&Token::new("ETH")).unwrap(), created);
    let updated = balances.update_at(&token, BalanceDelta::new(amt(-1.0), amt(-2.0)), 99).unwrap();
    assert_eq!(updated, Balance { time: 0, current_price: amt(1.0), total: amt(99.0), available: amt(98.0) });
    assert!(matches!(
        balances.update_at(&token, BalanceDelta::new(i64::MAX, 0), 99),
        Err(ExchangeError::InternalError(_))
    ));
    assert_eq!(balances.balance(&token).unwrap(), updated);
    let by_clock = balances.update(&Token::new("SOL"), BalanceDelta::new(1, 1)).unwrap();
    assert!(by_clock.time >= 0);
    assert_eq!(by_clock.total, 1);
    let deposited = balances.deposit(&token, amt(1.0)).unwrap();
    assert_eq!(deposited.token, token);
    assert_eq!(deposited.balance.total, amt(100.0));
    assert_eq!(deposited.balance.available, amt(99.0));
}

#[test]
fn opening_reserves_the_available_balance() {
    let (mut balances, token) = store_with_btc();
    let sell = order(Side::Sell, InstrumentKind::Perpetual, 50_000.0, 1.0, 0.0);
    let event = balances.update_from_open(&sell, amt(50.0), PositionMarginMode::Isolated, 5).unwrap();
    assert_eq!(balances.balance(&token).unwrap().available, amt(50.0));
    assert_eq!(balances.balance(&token).unwrap().total, amt(100.0));
    assert_eq!(event.exchange_timestamp, 5);
    match event.kind {
        AccountEventKind::Balance(reported) => {
            assert_eq!(reported.token, token);
            assert_eq!(reported.balance.available, amt(50.0));
        }
        _ => panic!("a balance is reported"),
    }
    assert!(matches!(
        balances.update_from_open(&sell, amt(50.0), PositionMarginMode::Cross, 5),
        Err(ExchangeError::NotImplemented(_))
    ));
    let spot = order(Side::Sell, InstrumentKind::Spot, 50_000.0, 1.0, 0.0);
    assert_eq!(
        balances.update_from_open(&spot, amt(50.0), PositionMarginMode::Isolated, 5).unwrap_err(),
        ExchangeError::UnsupportedInstrumentKind
    );
    assert_eq!(balances.balance(&token).unwrap().available, amt(50.0));
}

#[test]
fn cancelling_releases_what_remains() {
    let (mut balances, token) = store_with_btc();
    balances.set(&Token::new("USDT"), Balance::new(amt(1_000.0), amt(0.0), amt(1.0)));
    let buy = order(Side::Buy, InstrumentKind::Perpetual, 200.0, 3.0, 1.0);
    let released = balances.update_from_cancel(&buy, 9).unwrap();
    assert_eq!(released.token, Token::new("USDT"));
    assert_eq!(released.balance.available, amt(400.0));
    assert_eq!(released.balance.total, amt(1_000.0));
    let sell = order(Side::Sell, InstrumentKind::Perpetual, 200.0, 3.0, 1.0);
    let released = balances.update_from_cancel(&sell, 9).unwrap();
    assert_eq!(released.token, token);
    assert_eq!(released.balance.available, amt(102.0));
}

#[test]
fn a_buy_is_settled_in_both_tokens() {
    let (mut balances, _) = store_with_btc();
    balances.set(&Token::new("USDT"), Balance::new(amt(50_000.0), amt(45_000.0), amt(1.0)));
    let event = balances
        .update_from_trade(&trade(Side::Buy, InstrumentKind::Perpetual, 50_000.0, 0.1, 5.0), 3)
        .unwrap();
    let btc = balances.balance(&Token::new("BTC")).unwrap();
    let usdt = balances.balance(&Token::new("USDT")).unwrap();
    assert_eq!((btc.total, btc.available), (amt(100.1), amt(100.1)));
    assert_eq!((usdt.total, usdt.available), (amt(44_995.0), amt(44_995.0)));
    match event.kind {
        AccountEventKind::Balances(reported) => {
            assert_eq!(reported, vec![
                TokenBalance::new(Token::new("BTC"), btc),
                TokenBalance::new(Token::new("USDT"), usdt),
            ]);
        }
        _ => panic!("balances are reported"),
    }
}

#[test]
fn a_sell_is_settled_in_both_tokens() {
    let (mut balances, _) = store_with_btc();
    balances.set(&Token::new("BTC"), Balance::new(amt(1.0), amt(0.9), amt(1.0)));
    balances
        .update_from_trade(&trade(Side::Sell, InstrumentKind::CryptoLeveragedToken, 50_000.0, 0.1, 5.0), 3)
        .unwrap();
    let btc = balances.balance(&Token::new("BTC")).unwrap();
    let usdt = balances.balance(&Token::new("USDT")).unwrap();
    assert_eq!((btc.total, btc.available), (amt(0.9), amt(0.9)));
    assert_eq!((usdt.total, usdt.available), (amt(4_995.0), amt(4_995.0)));
    assert_eq!(usdt.time, 3);
    assert_eq!(usdt.current_price, amt(1.0));
}

#[test]
fn a_trade_that_cannot_be_settled_changes_nothing() {
    let (mut balances, token) = store_with_btc();
    balances.set(&Token::new("USDT"), Balance::new(i64::MAX, 0, 1));
    let result = balances.update_from_trade(&trade(Side::Sell, InstrumentKind::Perpetual, 50_000.0, 0.1, 5.0), 3);
    assert!(matches!(result, Err(ExchangeError::InternalError(_))));
    assert_eq!(balances.balance(&token).unwrap().total, amt(100.0));
    assert_eq!(balances.balance(&Token::new("USDT")).unwrap().total, i64::MAX);
    let spot = balances.update_from_trade(&trade(Side::Buy, InstrumentKind::Spot, 50_000.0, 0.1, 5.0), 3);
    assert_eq!(spot.unwrap_err(), ExchangeError::UnsupportedInstrumentKind);
}
