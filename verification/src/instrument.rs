//! Tokens, instruments, sides and venues.
use vstd::prelude::*;
use vstd::string::StringExecFns;

verus! {

/// A currency or asset, identified by its ticker.
#[derive(Debug, PartialEq, Eq, Hash)]
pub struct Token(pub String);

impl View for Token {
    type V = Seq<char>;

    open spec fn view(&self) -> Seq<char> {
        self.0@
    }
}

impl Clone for Token {
    fn clone(&self) -> (r: Self)
        ensures
            r == *self,
    {
        Token(self.0.clone())
    }
}

impl Token {
    /// The token with ticker `name`.
    pub fn new(name: &str) -> (r: Self)
        ensures
            r@ == name@,
    {
        Token(String::from_str(name))
    }

    /// Whether two tokens carry the same ticker.
    pub fn same(&self, other: &Token) -> (r: bool)
        ensures
            r == (self@ == other@),
    {
        self.0 == other.0
    }
}

/// The family of contract an instrument belongs to.
#[derive(Clone, Copy, Debug, PartialEq, Eq, Hash, Structural)]
pub enum InstrumentKind {
    Spot,
    Perpetual,
    Future,
    CryptoOption,
    CryptoLeveragedToken,
    CommodityOption,
    CommodityFuture,
}

/// Direction of an order or trade; for a position, `Buy` is long and `Sell` is short.
#[derive(Clone, Copy, Debug, PartialEq, Eq, Hash, Structural)]
pub enum Side {
    Buy,
    Sell,
}

impl Side {
    /// The other side.
    pub fn opposite(self) -> (r: Side)
        ensures
            r == self.spec_opposite(),
    {
        match self {
            Side::Buy => Side::Sell,
            Side::Sell => Side::Buy,
        }
    }

    pub open spec fn spec_opposite(self) -> Side {
        match self {
            Side::Buy => Side::Sell,
            Side::Sell => Side::Buy,
        }
    }

    /// `"Buy"` or `"Sell"`.
    pub fn as_str(self) -> (r: &'static str)
        ensures
            r@ == self.label(),
    {
        match self {
            Side::Buy => "Buy",
            Side::Sell => "Sell",
        }
    }

    /// The text that names this side in a market-trade record.
    pub open spec fn label(self) -> Seq<char> {
        match self {
            Side::Buy => "Buy"@,
            Side::Sell => "Sell"@,
        }
    }
}

/// An instrument as contracts speak of it: base ticker, quote ticker, kind.
pub type InstrumentKey = (Seq<char>, Seq<char>, InstrumentKind);

/// A tradable pair of tokens of a given kind.
#[derive(Debug, PartialEq, Eq, Hash)]
pub struct Instrument {
    pub base: Token,
    pub quote: Token,
    pub kind: InstrumentKind,
}

impl View for Instrument {
    type V = InstrumentKey;

    open spec fn view(&self) -> InstrumentKey {
        (self.base@, self.quote@, self.kind)
    }
}

impl Clone for Instrument {
    fn clone(&self) -> (r: Self)
        ensures
            r == *self,
    {
        Instrument { base: self.base.clone(), quote: self.quote.clone(), kind: self.kind }
    }
}

impl Instrument {
    /// The instrument `base`/`quote` of the given kind.
    pub fn new(base: &str, quote: &str, kind: InstrumentKind) -> (r: Self)
        ensures
            r@ == (base@, quote@, kind),
    {
        Instrument { base: Token::new(base), quote: Token::new(quote), kind }
    }

    /// Whether two instruments name the same pair and kind.
    pub fn same(&self, other: &Instrument) -> (r: bool)
        ensures
            r == (self@ == other@),
    {
        self.base.same(&other.base) && self.quote.same(&other.quote) && self.kind == other.kind
    }
}

/// The venue an order, trade or event belongs to.
#[derive(Clone, Copy, Debug, PartialEq, Eq, Hash, Structural)]
pub enum Exchange {
    SandBox,
    Hourglass,
    Binance,
    Okx,
}

/// Identifies an implementation of the client interface.
#[derive(Clone, Copy, Debug, PartialEq, Eq, PartialOrd, Ord, Hash, Structural)]
pub enum ExchangeKind {
    Simulated,
    Ftx,
}

impl ExchangeKind {
    /// The lower-case name of the implementation.
    pub fn as_str(&self) -> (r: &'static str)
        ensures
            r@ == self.name(),
    {
        match self {
            ExchangeKind::Simulated => "simulated",
            ExchangeKind::Ftx => "ftx",
        }
    }

    /// `"simulated"` or `"ftx"`.
    pub open spec fn name(&self) -> Seq<char> {
        match self {
            ExchangeKind::Simulated => "simulated"@,
            ExchangeKind::Ftx => "ftx"@,
        }
    }
}

} // verus!
