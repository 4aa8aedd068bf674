//! What the account tells its client.
use vstd::prelude::*;
use crate::balance::TokenBalance;
use crate::instrument::Exchange;
use crate::order::{Cancelled, Open, Order};
use crate::trade::ClientTrade;

verus! {

/// What happened to the account.
#[derive(Debug, PartialEq, Eq)]
pub enum AccountEventKind {
    OrdersOpen(Vec<Order<Open>>),
    OrdersCancelled(Vec<Order<Cancelled>>),
    Trade(ClientTrade),
    Balance(TokenBalance),
    Balances(Vec<TokenBalance>),
}

/// An [`AccountEventKind`] as contracts speak of it.
pub enum EventKindView {
    OrdersOpen(Seq<Order<Open>>),
    OrdersCancelled(Seq<Order<Cancelled>>),
    Trade(ClientTrade),
    Balance(TokenBalance),
    Balances(Seq<TokenBalance>),
}

impl View for AccountEventKind {
    type V = EventKindView;

    open spec fn view(&self) -> EventKindView {
        match self {
            AccountEventKind::OrdersOpen(orders) => EventKindView::OrdersOpen(orders@),
            AccountEventKind::OrdersCancelled(orders) => EventKindView::OrdersCancelled(orders@),
            AccountEventKind::Trade(trade) => EventKindView::Trade(*trade),
            AccountEventKind::Balance(balance) => EventKindView::Balance(*balance),
            AccountEventKind::Balances(balances) => EventKindView::Balances(balances@),
        }
    }
}

impl Clone for AccountEventKind {
    fn clone(&self) -> (r: Self)
        ensures
            r@ == self@,
    {
        match self {
            AccountEventKind::OrdersOpen(orders) => {
                let copy = orders.clone();
                AccountEventKind::OrdersOpen(copy)
            },
            AccountEventKind::OrdersCancelled(orders) => {
                let copy = orders.clone();
                AccountEventKind::OrdersCancelled(copy)
            },
            AccountEventKind::Trade(trade) => AccountEventKind::Trade(trade.clone()),
            AccountEventKind::Balance(balance) => AccountEventKind::Balance(balance.clone()),
            AccountEventKind::Balances(balances) => {
                let copy = balances.clone();
                AccountEventKind::Balances(copy)
            },
        }
    }
}

/// An event of the account, stamped with the exchange's time.
#[derive(Debug, PartialEq, Eq)]
pub struct AccountEvent {
    pub exchange_timestamp: i64,
    pub exchange: Exchange,
    pub kind: AccountEventKind,
}

impl Clone for AccountEvent {
    fn clone(&self) -> (r: Self)
        ensures
            r@ == self@,
    {
        AccountEvent {
            exchange_timestamp: self.exchange_timestamp,
            exchange: self.exchange,
            kind: self.kind.clone(),
        }
    }
}

/// An [`AccountEvent`] as contracts speak of it.
pub struct EventView {
    pub exchange_timestamp: i64,
    pub exchange: Exchange,
    pub kind: EventKindView,
}

impl View for AccountEvent {
    type V = EventView;

    open spec fn view(&self) -> EventView {
        EventView { exchange_timestamp: self.exchange_timestamp, exchange: self.exchange, kind: self.kind@ }
    }
}

/// The views of a queue of events, in order.
pub open spec fn views(events: Seq<AccountEvent>) -> Seq<EventView> {
    events.map_values(|e: AccountEvent| e@)
}

/// The event of the sandbox exchange that reports `kind` at time `timestamp`.
pub open spec fn sandbox_event(timestamp: i64, kind: EventKindView) -> EventView {
    EventView { exchange_timestamp: timestamp, exchange: Exchange::SandBox, kind }
}

/// Appending an event appends its view.
pub proof fn lemma_views_push(events: Seq<AccountEvent>, event: AccountEvent)
    ensures
        views(events.push(event)) == views(events).push(event@),
{
    assert(views(events.push(event)) =~= views(events).push(event@));
}

} // verus!
