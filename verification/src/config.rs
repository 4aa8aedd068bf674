//! Account configuration: modes, leverage and the book of fee rates.
use vstd::prelude::*;
use crate::error::ExchangeError;
use crate::fixed::SCALE;
use crate::instrument::{Exchange, Instrument, InstrumentKind, Side};
use crate::order::{ClientOrderId, OrderRole};

verus! {

/// Where the exchange takes its time from.
#[derive(Clone, Copy, Debug, PartialEq, Eq, Hash, Structural)]
pub enum SandboxMode {
    /// The time of the last market trade.
    Backtest,
    /// The wall clock.
    Online,
}

/// Whether an instrument may be held long and short at once.
#[derive(Clone, Copy, Debug, PartialEq, Eq, Hash, Structural)]
pub enum PositionDirectionMode {
    /// Long and short positions of one instrument may coexist.
    LongShort,
    /// At most one side is held per instrument.
    Net,
}

/// How margin is set aside for positions.
#[derive(Clone, Copy, Debug, PartialEq, Eq, Hash, Structural)]
pub enum PositionMarginMode {
    /// All positions share one pool. Declared, not implemented.
    Cross,
    /// Each position has margin of its own.
    Isolated,
}

/// The fee rates of one kind of instrument, as fixed-point fractions of the notional.
#[derive(Clone, Copy, Debug, PartialEq, Eq, Structural)]
pub struct CommissionRates {
    pub maker_fees: i64,
    pub taker_fees: i64,
}

impl CommissionRates {
    /// The rate charged to an order of the given role.
    pub open spec fn rate(&self, role: OrderRole) -> i64 {
        match role {
            OrderRole::Maker => self.maker_fees,
            OrderRole::Taker => self.taker_fees,
        }
    }
}

/// The rates of one instrument kind in the book of fees.
#[derive(Clone, Copy, Debug, PartialEq, Eq, Structural)]
pub struct FeeEntry {
    pub kind: InstrumentKind,
    pub rates: CommissionRates,
}

/// The rates that a book of fees gives for `kind`: those of its first entry of that kind.
pub open spec fn rates_of(book: Seq<FeeEntry>, kind: InstrumentKind) -> Option<CommissionRates>
    decreases book.len(),
{
    if book.len() == 0 {
        None
    } else if book[0].kind == kind {
        Some(book[0].rates)
    } else {
        rates_of(book.skip(1), kind)
    }
}

/// The configuration of an account.
#[derive(Debug, PartialEq, Eq)]
pub struct AccountConfig {
    pub execution_mode: SandboxMode,
    pub position_direction_mode: PositionDirectionMode,
    pub position_margin_mode: PositionMarginMode,
    /// Leverage applied to reservations, a fixed-point factor.
    pub account_leverage_rate: i64,
    /// Funding rate, a fixed-point fraction of the notional.
    pub funding_rate: i64,
    pub fees_book: Vec<FeeEntry>,
}

impl Clone for AccountConfig {
    fn clone(&self) -> (r: Self)
        ensures
            r.execution_mode == self.execution_mode,
            r.position_direction_mode == self.position_direction_mode,
            r.position_margin_mode == self.position_margin_mode,
            r.account_leverage_rate == self.account_leverage_rate,
            r.funding_rate == self.funding_rate,
            r.fees_book@ == self.fees_book@,
    {
        let mut fees_book: Vec<FeeEntry> = Vec::new();
        let mut i: usize = 0;
        while i < self.fees_book.len()
            invariant
                i <= self.fees_book.len(),
                fees_book@ == self.fees_book@.take(i as int),
            decreases self.fees_book.len() - i,
        {
            fees_book.push(self.fees_book[i]);
            i += 1;
        }
        AccountConfig {
            execution_mode: self.execution_mode,
            position_direction_mode: self.position_direction_mode,
            position_margin_mode: self.position_margin_mode,
            account_leverage_rate: self.account_leverage_rate,
            funding_rate: self.funding_rate,
            fees_book,
        }
    }
}

/// Both rates are fractions between zero and one.
pub open spec fn rates_in_range(rates: CommissionRates) -> bool {
    0 <= rates.maker_fees <= SCALE && 0 <= rates.taker_fees <= SCALE
}

/// Rates looked up in a book whose entries are all in range are in range.
pub proof fn lemma_rates_of_in_range(book: Seq<FeeEntry>, kind: InstrumentKind)
    requires
        forall|i: int| 0 <= i < book.len() ==> rates_in_range((#[trigger] book[i]).rates),
    ensures
        rates_of(book, kind) matches Some(rates) ==> rates_in_range(rates),
    decreases book.len(),
{
    if book.len() > 0 && book[0].kind != kind {
        let rest = book.skip(1);
        assert forall|i: int| 0 <= i < rest.len() implies rates_in_range((#[trigger] rest[i]).rates) by {
            assert(rest[i] == book[i + 1]);
        }
        lemma_rates_of_in_range(rest, kind);
    }
}

impl AccountConfig {
    /// The configuration is usable: the leverage is at least one and every fee
    /// rate is a fraction between zero and one.
    pub open spec fn wf(&self) -> bool {
        &&& self.account_leverage_rate >= SCALE
        &&& forall|i: int| 0 <= i < self.fees_book@.len() ==> rates_in_range((#[trigger] self.fees_book@[i]).rates)
    }

    /// Whether the configuration is usable.
    pub fn is_valid(&self) -> (r: bool)
        ensures
            r == self.wf(),
    {
        if self.account_leverage_rate < SCALE {
            return false;
        }
        let mut i: usize = 0;
        while i < self.fees_book.len()
            invariant
                i <= self.fees_book@.len(),
                forall|k: int| 0 <= k < i ==> rates_in_range((#[trigger] self.fees_book@[k]).rates),
            decreases self.fees_book@.len() - i,
        {
            let rates = self.fees_book[i].rates;
            if rates.maker_fees < 0 || rates.maker_fees > SCALE || rates.taker_fees < 0 || rates.taker_fees > SCALE {
                return false;
            }
            i += 1;
        }
        true
    }

    /// The rates that this configuration gives for `kind`, if any.
    pub open spec fn rates(&self, kind: InstrumentKind) -> Option<CommissionRates> {
        rates_of(self.fees_book@, kind)
    }

    /// The rates configured for `kind`; `UnsupportedInstrumentKind` when the
    /// book of fees has no entry for it.
    pub fn commission_rates(&self, kind: InstrumentKind) -> (r: Result<CommissionRates, ExchangeError>)
        ensures
            match self.rates(kind) {
                Some(rates) => r == Ok::<CommissionRates, ExchangeError>(rates),
                None => r == Err::<CommissionRates, ExchangeError>(ExchangeError::UnsupportedInstrumentKind),
            },
    {
        let mut i: usize = 0;
        assert(self.fees_book@.skip(0) =~= self.fees_book@);
        while i < self.fees_book.len()
            invariant
                i <= self.fees_book.len(),
                rates_of(self.fees_book@, kind) == rates_of(self.fees_book@.skip(i as int), kind),
            decreases self.fees_book.len() - i,
        {
            let entry = self.fees_book[i];
            if entry.kind == kind {
                return Ok(entry.rates);
            }
            assert(self.fees_book@.skip(i as int).skip(1) =~= self.fees_book@.skip(i + 1));
            i += 1;
        }
        Err(ExchangeError::UnsupportedInstrumentKind)
    }

    /// The maker rate configured for `kind`.
    pub fn get_maker_fee_rate(&self, kind: InstrumentKind) -> (r: Result<i64, ExchangeError>)
        ensures
            match self.rates(kind) {
                Some(rates) => r == Ok::<i64, ExchangeError>(rates.maker_fees),
                None => r == Err::<i64, ExchangeError>(ExchangeError::UnsupportedInstrumentKind),
            },
    {
        match self.commission_rates(kind) {
            Ok(rates) => Ok(rates.maker_fees),
            Err(e) => Err(e),
        }
    }

    /// The taker rate configured for `kind`.
    pub fn get_taker_fee_rate(&self, kind: InstrumentKind) -> (r: Result<i64, ExchangeError>)
        ensures
            match self.rates(kind) {
                Some(rates) => r == Ok::<i64, ExchangeError>(rates.taker_fees),
                None => r == Err::<i64, ExchangeError>(ExchangeError::UnsupportedInstrumentKind),
            },
    {
        match self.commission_rates(kind) {
            Ok(rates) => Ok(rates.taker_fees),
            Err(e) => Err(e),
        }
    }

    /// The rate that an order of role `role` pays on an instrument of kind `kind`.
    pub fn fees_percent(&self, kind: InstrumentKind, role: OrderRole) -> (r: Result<i64, ExchangeError>)
        ensures
            match self.rates(kind) {
                Some(rates) => r == Ok::<i64, ExchangeError>(rates.rate(role)),
                None => r == Err::<i64, ExchangeError>(ExchangeError::UnsupportedInstrumentKind),
            },
    {
        match self.commission_rates(kind) {
            Ok(rates) => match role {
                OrderRole::Maker => Ok(rates.maker_fees),
                OrderRole::Taker => Ok(rates.taker_fees),
            },
            Err(e) => Err(e),
        }
    }
}

/// A request to change the configuration of one instrument.
#[derive(Debug, PartialEq, Eq)]
pub struct ConfigurationRequest {
    pub exchange: Exchange,
    pub instrument: Instrument,
    pub timestamp: i64,
    pub cid: Option<ClientOrderId>,
    pub leverage_rate: Option<i64>,
    pub side: Side,
    pub position_margin_mode: Option<PositionMarginMode>,
    pub position_direction_mode: Option<PositionDirectionMode>,
}

} // verus!
