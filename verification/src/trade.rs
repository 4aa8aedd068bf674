//! Public market trades and the client's own trades.
use vstd::prelude::*;
use vstd::string::{StringExecFns, StrSliceExecFns};
use crate::instrument::{Exchange, Instrument, InstrumentKey, InstrumentKind, Side, Token};
use crate::order::{clone_cid, ClientOrderId, OrderId};

verus! {

/// Identifier of a trade of the client.
#[derive(Clone, Copy, Debug, PartialEq, Eq, PartialOrd, Ord, Hash, Structural)]
pub struct ClientTradeId(pub u64);

/// A fill of one of the client's resting orders.
#[derive(Debug, PartialEq, Eq)]
pub struct ClientTrade {
    pub exchange: Exchange,
    pub timestamp: i64,
    pub trade_id: ClientTradeId,
    pub order_id: OrderId,
    pub cid: Option<ClientOrderId>,
    pub instrument: Instrument,
    pub side: Side,
    pub price: i64,
    pub size: i64,
    pub fees: i64,
}

impl Clone for ClientTrade {
    fn clone(&self) -> (r: Self)
        ensures
            r == *self,
    {
        ClientTrade {
            exchange: self.exchange,
            timestamp: self.timestamp,
            trade_id: self.trade_id,
            order_id: self.order_id,
            cid: clone_cid(&self.cid),
            instrument: self.instrument.clone(),
            side: self.side,
            price: self.price,
            size: self.size,
            fees: self.fees,
        }
    }
}

/// `i` is the place of the first `_` of `s`.
pub open spec fn first_separator(s: Seq<char>, i: int) -> bool {
    &&& 0 <= i < s.len()
    &&& s[i] == '_'
    &&& forall|j: int| 0 <= j < i ==> s[j] != '_'
}

/// `s` has no `_`.
pub open spec fn no_separator(s: Seq<char>) -> bool {
    forall|j: int| 0 <= j < s.len() ==> s[j] != '_'
}

/// The instrument that a symbol of the form `BASE_QUOTE` names, as a
/// perpetual: the text before the first `_` and the text after it. `None` for
/// a symbol without `_`.
pub open spec fn instrument_named(symbol: Seq<char>) -> Option<InstrumentKey> {
    if exists|i: int| first_separator(symbol, i) {
        let i = choose|i: int| first_separator(symbol, i);
        Some((symbol.subrange(0, i), symbol.subrange(i + 1, symbol.len() as int), InstrumentKind::Perpetual))
    } else {
        None
    }
}

/// The side that a market-trade record names: `"Buy"` or `"Sell"`, nothing else.
pub open spec fn side_named(text: Seq<char>) -> Option<Side> {
    if text == Side::Buy.label() {
        Some(Side::Buy)
    } else if text == Side::Sell.label() {
        Some(Side::Sell)
    } else {
        None
    }
}

/// A trade that happened on the public market.
///
/// `symbol` names the pair as `BASE_QUOTE`; `side` is the text `Buy` or `Sell`
/// and names the aggressor.
#[derive(Debug, PartialEq, Eq)]
pub struct MarketTrade {
    pub exchange: String,
    pub symbol: String,
    pub timestamp: i64,
    pub price: i64,
    pub side: String,
    pub amount: i64,
}

impl MarketTrade {
    /// The place of the first `_` in the symbol, if it has one.
    fn separator(&self) -> (r: Option<usize>)
        ensures
            match r {
                Some(i) => first_separator(self.symbol@, i as int),
                None => no_separator(self.symbol@),
            },
    {
        let symbol = self.symbol.as_str();
        let len: usize = symbol.unicode_len();
        let mut i: usize = 0;
        while i < len
            invariant
                len == symbol@.len(),
                symbol@ == self.symbol@,
                i <= len,
                forall|j: int| 0 <= j < i ==> symbol@[j] != '_',
            decreases len - i,
        {
            if symbol.get_char(i) == '_' {
                return Some(i);
            }
            i += 1;
        }
        None
    }

    /// The ticker before the first `_` of the symbol; `None` when the symbol has no `_`.
    pub fn parse_base(&self) -> (r: Option<String>)
        ensures
            match r {
                Some(base) => exists|i: int|
                    first_separator(self.symbol@, i) && base@ == self.symbol@.subrange(0, i),
                None => no_separator(self.symbol@),
            },
    {
        match self.separator() {
            Some(i) => Some(String::from_str(self.symbol.as_str().substring_char(0, i))),
            None => None,
        }
    }

    /// The ticker after the first `_` of the symbol; `None` when the symbol has no `_`.
    pub fn parse_quote(&self) -> (r: Option<String>)
        ensures
            match r {
                Some(quote) => exists|i: int|
                    first_separator(self.symbol@, i) && quote@ == self.symbol@.subrange(
                        i + 1,
                        self.symbol@.len() as int,
                    ),
                None => no_separator(self.symbol@),
            },
    {
        match self.separator() {
            Some(i) => {
                let symbol = self.symbol.as_str();
                let len: usize = symbol.unicode_len();
                Some(String::from_str(symbol.substring_char(i + 1, len)))
            },
            None => None,
        }
    }

    /// The kind of instrument that market trades are delivered for: perpetuals.
    pub fn parse_kind(&self) -> (r: InstrumentKind)
        ensures
            r == InstrumentKind::Perpetual,
    {
        InstrumentKind::Perpetual
    }

    /// The side of the aggressor, when the record names one.
    pub fn parse_side(&self) -> (r: Option<Side>)
        ensures
            r == side_named(self.side@),
    {
        let text = self.side.as_str();
        if str_equal(text, Side::Buy.as_str()) {
            Some(Side::Buy)
        } else if str_equal(text, Side::Sell.as_str()) {
            Some(Side::Sell)
        } else {
            None
        }
    }

    /// The instrument that the symbol names, as a perpetual; `None` when the
    /// symbol has no `_`.
    pub fn parse_instrument(&self) -> (r: Option<Instrument>)
        ensures
            match r {
                Some(instrument) => instrument_named(self.symbol@) == Some(instrument@),
                None => instrument_named(self.symbol@) is None,
            },
    {
        match self.separator() {
            Some(i) => {
                proof {
                    let chosen = choose|k: int| first_separator(self.symbol@, k);
                    assert(chosen == i) by {
                        if chosen < i {
                            assert(self.symbol@[chosen] != '_');
                        } else if i < chosen {
                            assert(self.symbol@[i as int] != '_');
                        }
                    }
                }
                let symbol = self.symbol.as_str();
                let len: usize = symbol.unicode_len();
                let base = Token(String::from_str(symbol.substring_char(0, i)));
                let quote = Token(String::from_str(symbol.substring_char(i + 1, len)));
                Some(Instrument { base, quote, kind: InstrumentKind::Perpetual })
            },
            None => {
                assert forall|k: int| !first_separator(self.symbol@, k) by {
                    if 0 <= k < self.symbol@.len() {
                        assert(self.symbol@[k] != '_');
                    }
                }
                None
            },
        }
    }
}

/// Whether two texts are the same sequence of characters.
pub fn str_equal(a: &str, b: &str) -> (r: bool)
    ensures
        r == (a@ == b@),
{
    let len: usize = a.unicode_len();
    if len != b.unicode_len() {
        return false;
    }
    let mut i: usize = 0;
    while i < len
        invariant
            len == a@.len(),
            len == b@.len(),
            i <= len,
            forall|j: int| 0 <= j < i ==> a@[j] == b@[j],
        decreases len - i,
    {
        if a.get_char(i) != b.get_char(i) {
            return false;
        }
        i += 1;
    }
    assert(a@ =~= b@);
    true
}

/// Identifier that a venue gives a trade. Not necessarily unique.
#[derive(Debug, PartialEq, Eq, PartialOrd, Ord, Hash)]
pub struct TradeId(pub String);

impl View for TradeId {
    type V = Seq<char>;

    open spec fn view(&self) -> Seq<char> {
        self.0@
    }
}

impl Clone for TradeId {
    fn clone(&self) -> (r: Self)
        ensures
            r == *self,
    {
        TradeId(self.0.clone())
    }
}

impl TradeId {
    pub fn new(id: &str) -> (r: Self)
        ensures
            r@ == id@,
    {
        TradeId(String::from_str(id))
    }
}

/// The fees of a trade, in units of `symbol`.
#[derive(Debug, PartialEq, Eq)]
pub struct SymbolFees {
    pub symbol: Token,
    pub fees: i64,
}

impl SymbolFees {
    pub fn new(symbol: Token, fees: i64) -> (r: Self)
        ensures
            r == (SymbolFees { symbol, fees }),
    {
        SymbolFees { symbol, fees }
    }
}

/// A trade in the venue-independent form.
#[derive(Debug, PartialEq, Eq)]
pub struct Trade {
    pub id: TradeId,
    pub order_id: OrderId,
    pub instrument: Instrument,
    pub side: Side,
    pub price: i64,
    pub amount: i64,
    pub fees: SymbolFees,
}

/// A trade as a public feed reports it.
#[derive(Debug, PartialEq, Eq)]
pub struct PublicTrade {
    pub id: String,
    pub price: i64,
    pub amount: i64,
    pub side: Side,
}

} // verus!
