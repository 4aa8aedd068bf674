//! Subscriptions to market data.
use std::collections::HashMap;
use vstd::prelude::*;
use crate::instrument::Instrument;

verus! {

/// Identifies a subscription to a stream of market data.
#[derive(Debug, PartialEq, Eq, Hash)]
pub struct SubscriptionId(pub String);

impl View for SubscriptionId {
    type V = Seq<char>;

    open spec fn view(&self) -> Seq<char> {
        self.0@
    }
}

impl SubscriptionId {
    /// The identifier as text.
    pub fn as_text(&self) -> (r: String)
        ensures
            r@ == self@,
    {
        self.0.clone()
    }
}

/// What each subscription stands for.
pub struct SubscriptionMap<T>(pub HashMap<SubscriptionId, T>);

/// A subscription to one kind of data of one instrument on one exchange.
#[derive(Debug)]
pub struct Subscription<Exchange, Kind> {
    pub exchange: Exchange,
    pub instrument: Instrument,
    pub kind: Kind,
}

} // verus!
