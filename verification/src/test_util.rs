//! Ready-made orders, books and trades for trying the exchange out.
use vstd::prelude::*;
use vstd::string::StringExecFns;
use crate::instrument::{Exchange, Instrument, InstrumentKind, Side};
use crate::order::{ClientOrderId, Open, Order, OrderId, OrderInstruction, OrderRole};
use crate::orderbook::InstrumentOrders;
use crate::trade::{PublicTrade, SymbolFees, Trade, TradeId};

verus! {

/// The book with the given counter, bids and asks.
pub fn generate_client_orders(batch_id: u64, bids: Vec<Order<Open>>, asks: Vec<Order<Open>>) -> (r: InstrumentOrders)
    ensures
        r == (InstrumentOrders { batch_id, bids, asks }),
{
    InstrumentOrders { batch_id, bids, asks }
}

/// A resting limit order for the perpetual `base`/`quote` on the sandbox
/// exchange, numbered 1 and taken as a maker, with the given price, size and
/// filled quantity.
pub fn generate_order_open(cid: ClientOrderId, side: Side, price: i64, quantity: i64, filled: i64) -> (r: Order<Open>)
    ensures
        r.cid == Some(cid),
        r.side == side,
        r.instruction == OrderInstruction::Limit,
        r.exchange == Exchange::SandBox,
        r.timestamp == 0,
        r.instrument@ == ("base"@, "quote"@, InstrumentKind::Perpetual),
        r.state == (Open {
            id: OrderId(1),
            price,
            size: quantity,
            filled_quantity: filled,
            order_role: OrderRole::Maker,
        }),
{
    Order {
        instruction: OrderInstruction::Limit,
        exchange: Exchange::SandBox,
        instrument: Instrument::new("base", "quote", InstrumentKind::Perpetual),
        timestamp: 0,
        cid: Some(cid),
        side,
        state: Open { id: OrderId(1), price, size: quantity, filled_quantity: filled, order_role: OrderRole::Maker },
    }
}

/// A public trade with the id `trade_id`.
pub fn generate_public_trade(side: Side, price: i64, amount: i64) -> (r: PublicTrade)
    ensures
        r.id@ == "trade_id"@,
        r.price == price,
        r.amount == amount,
        r.side == side,
{
    PublicTrade { id: String::from_str("trade_id"), price, amount, side }
}

/// A trade of order 1 in the perpetual `base`/`quote`.
pub fn generate_trade(id: TradeId, side: Side, price: i64, quantity: i64, fees: SymbolFees) -> (r: Trade)
    ensures
        r.id == id,
        r.order_id == OrderId(1),
        r.instrument@ == ("base"@, "quote"@, InstrumentKind::Perpetual),
        r.side == side,
        r.price == price,
        r.amount == quantity,
        r.fees == fees,
{
    Trade {
        id,
        order_id: OrderId(1),
        instrument: Instrument::new("base", "quote", InstrumentKind::Perpetual),
        side,
        price,
        amount: quantity,
        fees,
    }
}

} // verus!
