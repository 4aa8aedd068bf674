//! The running aggregates of a position.
use vstd::prelude::*;
use vstd::string::StringExecFns;
use crate::balance::TokenBalance;
use crate::error::{is_out_of_range, out_of_range, ExchangeError};
use crate::fixed::{add_fixed, blend_price, blended_price, fits_i64, mul_fixed, scaled_mul, sub_fixed};
use crate::instrument::{Exchange, Instrument, Side};
use crate::trade::ClientTrade;

verus! {

/// Identifies a position by its instrument and the time it was entered.
#[derive(Debug, PartialEq, Eq)]
pub struct PositionId {
    pub instrument: Instrument,
    pub timestamp: i64,
}

impl Clone for PositionId {
    fn clone(&self) -> (r: Self)
        ensures
            r == *self,
    {
        PositionId { instrument: self.instrument.clone(), timestamp: self.timestamp }
    }
}

impl PositionId {
    pub fn new(instrument: &Instrument, timestamp: i64) -> (r: Self)
        ensures
            r == (PositionId { instrument: *instrument, timestamp }),
    {
        PositionId { instrument: instrument.clone(), timestamp }
    }
}

/// The aggregates that a position keeps up to date from its trades.
///
/// `current_size` is a magnitude; the direction is `side`.
#[derive(Debug, PartialEq, Eq)]
pub struct PositionMeta {
    pub position_id: PositionId,
    pub enter_ts: i64,
    pub update_ts: i64,
    pub exchange: Exchange,
    pub instrument: Instrument,
    pub side: Side,
    pub current_size: i64,
    pub current_fees_total: i64,
    pub current_avg_price_gross: i64,
    pub current_symbol_price: i64,
    pub current_avg_price: i64,
    pub unrealised_pnl: i64,
    pub realised_pnl: i64,
}

impl Clone for PositionMeta {
    fn clone(&self) -> (r: Self)
        ensures
            r == *self,
    {
        PositionMeta {
            position_id: self.position_id.clone(),
            enter_ts: self.enter_ts,
            update_ts: self.update_ts,
            exchange: self.exchange,
            instrument: self.instrument.clone(),
            side: self.side,
            current_size: self.current_size,
            current_fees_total: self.current_fees_total,
            current_avg_price_gross: self.current_avg_price_gross,
            current_symbol_price: self.current_symbol_price,
            current_avg_price: self.current_avg_price,
            unrealised_pnl: self.unrealised_pnl,
            realised_pnl: self.realised_pnl,
        }
    }
}

/// Profit or loss of `size` units valued at `price` against an average entry
/// price `avg`: `(price - avg) * size`.
pub open spec fn pnl(price: int, avg: int, size: int) -> int {
    scaled_mul(price - avg, size)
}

/// The aggregates of a position opened by `trade` with `size` units.
pub open spec fn meta_from_trade(trade: ClientTrade, size: i64) -> PositionMeta {
    PositionMeta {
        position_id: PositionId { instrument: trade.instrument, timestamp: trade.timestamp },
        enter_ts: trade.timestamp,
        update_ts: trade.timestamp,
        exchange: trade.exchange,
        instrument: trade.instrument,
        side: trade.side,
        current_size: size,
        current_fees_total: trade.fees,
        current_avg_price_gross: trade.price,
        current_symbol_price: trade.price,
        current_avg_price: trade.price,
        unrealised_pnl: 0,
        realised_pnl: 0,
    }
}

/// Computes [`pnl`]; `None` when a step of it is not representable.
pub fn compute_pnl(price: i64, avg: i64, size: i64) -> (r: Option<i64>)
    ensures
        r == (if fits_i64(price - avg) && fits_i64(pnl(price as int, avg as int, size as int)) {
            Some(pnl(price as int, avg as int, size as int) as i64)
        } else {
            None::<i64>
        }),
{
    match sub_fixed(price, avg) {
        Some(difference) => mul_fixed(difference, size),
        None => None,
    }
}

impl PositionMeta {
    /// The aggregates are those of a held position: size, prices and average
    /// are not negative.
    pub open spec fn wf(&self) -> bool {
        &&& self.current_size >= 0
        &&& self.current_avg_price_gross >= 0
        &&& self.current_avg_price >= 0
        &&& self.current_symbol_price >= 0
    }

    /// A trade on the other side than the position.
    pub open spec fn opposes(&self, trade: ClientTrade) -> bool {
        self.side != trade.side
    }

    /// The size after `trade`: grown by a trade on the position's side, reduced
    /// by a trade on the other side. A trade that would bring the size to
    /// exactly zero leaves it as it is.
    pub open spec fn size_after(&self, trade: ClientTrade) -> int {
        let total = if self.opposes(trade) {
            self.current_size - trade.size
        } else {
            self.current_size + trade.size
        };
        if total != 0 {
            total
        } else {
            self.current_size as int
        }
    }

    /// The gross average price after `trade`: the size-weighted mean of the old
    /// average and the trade's price when the trade adds to the position; the
    /// old average when it reduces the position or brings the size to zero.
    pub open spec fn gross_after(&self, trade: ClientTrade) -> int {
        if self.opposes(trade) || self.current_size + trade.size == 0 {
            self.current_avg_price_gross as int
        } else {
            blended_price(
                self.current_avg_price_gross as int,
                self.current_size as int,
                trade.price as int,
                trade.size as int,
            )
        }
    }

    /// `trade` can be folded into the aggregates: the amounts involved are not
    /// negative and every new value is representable.
    pub open spec fn takes(&self, trade: ClientTrade) -> bool {
        &&& self.current_size >= 0 && self.current_avg_price_gross >= 0 && trade.price >= 0 && trade.size >= 0
        &&& fits_i64(self.current_fees_total + trade.fees)
        &&& fits_i64(self.size_after(trade))
        &&& fits_i64(trade.price - self.gross_after(trade))
        &&& fits_i64(pnl(trade.price as int, self.gross_after(trade), self.size_after(trade)))
        &&& fits_i64(self.realised_after(trade))
    }

    /// The realised profit after `trade`: a trade on the other side that finds
    /// and leaves the position without size moves the unrealised profit over.
    pub open spec fn realised_after(&self, trade: ClientTrade) -> int {
        if self.opposes(trade) && self.size_after(trade) == 0 {
            self.realised_pnl + self.unrealised_pnl
        } else {
            self.realised_pnl as int
        }
    }

    /// The aggregates after `trade`, for a trade that [`Self::takes`] accepts.
    ///
    /// The update time and symbol price become those of the trade, the fee is
    /// added to the fees, size and average price move as [`Self::size_after`] and
    /// [`Self::gross_after`] say, and the unrealised profit is that of the new
    /// size at the trade's price.
    pub open spec fn after_trade(&self, trade: ClientTrade) -> PositionMeta {
        PositionMeta {
            position_id: self.position_id,
            enter_ts: self.enter_ts,
            update_ts: trade.timestamp,
            exchange: self.exchange,
            instrument: self.instrument,
            side: self.side,
            current_size: self.size_after(trade) as i64,
            current_fees_total: (self.current_fees_total + trade.fees) as i64,
            current_avg_price_gross: self.gross_after(trade) as i64,
            current_symbol_price: trade.price,
            current_avg_price: self.gross_after(trade) as i64,
            unrealised_pnl: pnl(trade.price as int, self.gross_after(trade), self.size_after(trade)) as i64,
            realised_pnl: self.realised_after(trade) as i64,
        }
    }

    /// Folds `trade` into the aggregates. When the trade cannot be taken the
    /// aggregates stay as they were and `InternalError` is returned.
    pub fn update_from_trade(&mut self, trade: &ClientTrade) -> (r: Result<(), ExchangeError>)
        ensures
            old(self).takes(*trade) ==> r is Ok && *final(self) == old(self).after_trade(*trade),
            !old(self).takes(*trade) ==> r is Err && is_out_of_range(r->Err_0) && *final(self) == *old(self),
    {
        if self.current_size < 0 || self.current_avg_price_gross < 0 || trade.price < 0 || trade.size < 0 {
            return Err(out_of_range());
        }
        let is_opposite = match (self.side, trade.side) {
            (Side::Buy, Side::Sell) | (Side::Sell, Side::Buy) => true,
            _ => false,
        };
        let fees = add_fixed(self.current_fees_total, trade.fees);
        let total: Option<i64> = if is_opposite {
            sub_fixed(self.current_size, trade.size)
        } else {
            add_fixed(self.current_size, trade.size)
        };
        let size: Option<i64> = match total {
            Some(t) => if t != 0 {
                Some(t)
            } else {
                Some(self.current_size)
            },
            None => None,
        };
        let gross: i64 = if is_opposite || (self.current_size == 0 && trade.size == 0) {
            self.current_avg_price_gross
        } else {
            match blend_price(self.current_avg_price_gross, self.current_size, trade.price, trade.size) {
                Some(g) => g,
                None => self.current_avg_price_gross,
            }
        };
        match (fees, size) {
            (Some(fees), Some(size)) => {
                let realised: Option<i64> = if is_opposite && size == 0 {
                    add_fixed(self.realised_pnl, self.unrealised_pnl)
                } else {
                    Some(self.realised_pnl)
                };
                match (compute_pnl(trade.price, gross, size), realised) {
                    (Some(unrealised), Some(realised)) => {
                        self.realised_pnl = realised;
                        self.update_ts = trade.timestamp;
                        self.current_symbol_price = trade.price;
                        self.current_fees_total = fees;
                        self.current_size = size;
                        self.current_avg_price_gross = gross;
                        self.current_avg_price = gross;
                        self.unrealised_pnl = unrealised;
                        Ok(())
                    },
                    _ => Err(out_of_range()),
                }
            },
            _ => Err(out_of_range()),
        }
    }

    /// The aggregates of a position that `trade` opens.
    pub fn create_from_trade(trade: &ClientTrade) -> (r: Self)
        ensures
            r == meta_from_trade(*trade, trade.size),
    {
        Self::create_from_trade_with_remaining(trade, trade.size)
    }

    /// The aggregates of a position that `trade` opens with only
    /// `remaining_quantity` of its size, the rest having closed another position.
    pub fn create_from_trade_with_remaining(trade: &ClientTrade, remaining_quantity: i64) -> (r: Self)
        ensures
            r == meta_from_trade(*trade, remaining_quantity),
    {
        PositionMeta {
            position_id: PositionId::new(&trade.instrument, trade.timestamp),
            enter_ts: trade.timestamp,
            update_ts: trade.timestamp,
            exchange: trade.exchange,
            instrument: trade.instrument.clone(),
            side: trade.side,
            current_size: remaining_quantity,
            current_fees_total: trade.fees,
            current_avg_price_gross: trade.price,
            current_symbol_price: trade.price,
            current_avg_price: trade.price,
            unrealised_pnl: 0,
            realised_pnl: 0,
        }
    }

    /// The unrealised profit can be computed from the current aggregates.
    pub open spec fn unrealised_representable(&self) -> bool {
        &&& fits_i64(self.current_symbol_price - self.current_avg_price)
        &&& fits_i64(
            pnl(self.current_symbol_price as int, self.current_avg_price as int, self.current_size as int),
        )
    }

    /// Sets the unrealised profit to that of the current size at the current
    /// symbol price. Changes nothing and returns `InternalError` when the value
    /// is not representable.
    pub fn update_unrealised_pnl(&mut self) -> (r: Result<(), ExchangeError>)
        ensures
            old(self).unrealised_representable() ==> r is Ok && *final(self) == (PositionMeta {
                unrealised_pnl: pnl(
                    old(self).current_symbol_price as int,
                    old(self).current_avg_price as int,
                    old(self).current_size as int,
                ) as i64,
                ..*old(self)
            }),
            !old(self).unrealised_representable() ==> r is Err && is_out_of_range(r->Err_0) && *final(self)
                == *old(self),
    {
        match compute_pnl(self.current_symbol_price, self.current_avg_price, self.current_size) {
            Some(value) => {
                self.unrealised_pnl = value;
                Ok(())
            },
            None => Err(out_of_range()),
        }
    }

    /// The realised profit of closing at `closing_price` can be computed.
    pub open spec fn realised_representable(&self, closing_price: i64) -> bool {
        &&& fits_i64(closing_price - self.current_avg_price)
        &&& fits_i64(pnl(closing_price as int, self.current_avg_price as int, self.current_size as int))
    }

    /// The aggregates after the whole position is closed at `closing_price`:
    /// the profit is realised and size, averages and fees are cleared.
    pub open spec fn closed_at(&self, closing_price: i64) -> PositionMeta {
        PositionMeta {
            realised_pnl: pnl(closing_price as int, self.current_avg_price as int, self.current_size as int) as i64,
            current_size: 0,
            current_avg_price: 0,
            current_avg_price_gross: 0,
            current_fees_total: 0,
            ..*self
        }
    }

    /// Realises the profit of the whole position at `closing_price` and clears
    /// the position. Changes nothing and returns `InternalError` when the
    /// profit is not representable.
    pub fn update_realised_pnl(&mut self, closing_price: i64) -> (r: Result<(), ExchangeError>)
        ensures
            old(self).realised_representable(closing_price) ==> r is Ok && *final(self) == old(self).closed_at(
                closing_price,
            ),
            !old(self).realised_representable(closing_price) ==> r is Err && is_out_of_range(r->Err_0)
                && *final(self) == *old(self),
    {
        match compute_pnl(closing_price, self.current_avg_price, self.current_size) {
            Some(value) => {
                self.realised_pnl = value;
                self.current_size = 0;
                self.current_avg_price = 0;
                self.current_avg_price_gross = 0;
                self.current_fees_total = 0;
                Ok(())
            },
            None => Err(out_of_range()),
        }
    }
}

/// The error of a builder that lacks what `text` names.
fn incomplete(text: &str) -> (e: ExchangeError)
    ensures
        e matches ExchangeError::BuilderIncomplete(s) && s@ == text@,
{
    ExchangeError::BuilderIncomplete(String::from_str(text))
}

/// Collects the aggregates of a position field by field.
#[derive(Debug, PartialEq, Eq)]
pub struct PositionMetaBuilder {
    pub position_id: Option<PositionId>,
    pub enter_ts: Option<i64>,
    pub update_ts: Option<i64>,
    pub exit_balance: Option<TokenBalance>,
    pub exchange: Option<Exchange>,
    pub instrument: Option<Instrument>,
    pub side: Option<Side>,
    pub current_size: Option<i64>,
    pub current_fees_total: Option<i64>,
    pub current_avg_price_gross: Option<i64>,
    pub current_symbol_price: Option<i64>,
    pub current_avg_price: Option<i64>,
    pub unrealised_pnl: Option<i64>,
    pub realised_pnl: Option<i64>,
}

impl PositionMetaBuilder {
    /// A builder with no field set.
    pub fn new() -> (r: Self)
        ensures
            r == Self::empty(),
    {
        Self {
            position_id: None,
            enter_ts: None,
            update_ts: None,
            exit_balance: None,
            exchange: None,
            instrument: None,
            side: None,
            current_size: None,
            current_fees_total: None,
            current_avg_price_gross: None,
            current_symbol_price: None,
            current_avg_price: None,
            unrealised_pnl: None,
            realised_pnl: None,
        }
    }

    /// The builder with no field set.
    pub open spec fn empty() -> Self {
        Self {
            position_id: None,
            enter_ts: None,
            update_ts: None,
            exit_balance: None,
            exchange: None,
            instrument: None,
            side: None,
            current_size: None,
            current_fees_total: None,
            current_avg_price_gross: None,
            current_symbol_price: None,
            current_avg_price: None,
            unrealised_pnl: None,
            realised_pnl: None,
        }
    }

    pub fn position_id(self, position_id: PositionId) -> (r: Self)
        ensures
            r == (Self { position_id: Some(position_id), ..self }),
    {
        let mut builder = self;
        builder.position_id = Some(position_id);
        builder
    }

    pub fn enter_ts(self, enter_ts: i64) -> (r: Self)
        ensures
            r == (Self { enter_ts: Some(enter_ts), ..self }),
    {
        let mut builder = self;
        builder.enter_ts = Some(enter_ts);
        builder
    }

    pub fn update_ts(self, update_ts: i64) -> (r: Self)
        ensures
            r == (Self { update_ts: Some(update_ts), ..self }),
    {
        let mut builder = self;
        builder.update_ts = Some(update_ts);
        builder
    }

    pub fn exit_balance(self, exit_balance: TokenBalance) -> (r: Self)
        ensures
            r == (Self { exit_balance: Some(exit_balance), ..self }),
    {
        let mut builder = self;
        builder.exit_balance = Some(exit_balance);
        builder
    }

    pub fn exchange(self, exchange: Exchange) -> (r: Self)
        ensures
            r == (Self { exchange: Some(exchange), ..self }),
    {
        let mut builder = self;
        builder.exchange = Some(exchange);
        builder
    }

    pub fn instrument(self, instrument: Instrument) -> (r: Self)
        ensures
            r == (Self { instrument: Some(instrument), ..self }),
    {
        let mut builder = self;
        builder.instrument = Some(instrument);
        builder
    }

    pub fn side(self, side: Side) -> (r: Self)
        ensures
            r == (Self { side: Some(side), ..self }),
    {
        let mut builder = self;
        builder.side = Some(side);
        builder
    }

    pub fn current_size(self, current_size: i64) -> (r: Self)
        ensures
            r == (Self { current_size: Some(current_size), ..self }),
    {
        let mut builder = self;
        builder.current_size = Some(current_size);
        builder
    }

    pub fn current_fees_total(self, current_fees_total: i64) -> (r: Self)
        ensures
            r == (Self { current_fees_total: Some(current_fees_total), ..self }),
    {
        let mut builder = self;
        builder.current_fees_total = Some(current_fees_total);
        builder
    }

    pub fn current_avg_price_gross(self, current_avg_price_gross: i64) -> (r: Self)
        ensures
            r == (Self { current_avg_price_gross: Some(current_avg_price_gross), ..self }),
    {
        let mut builder = self;
        builder.current_avg_price_gross = Some(current_avg_price_gross);
        builder
    }

    pub fn current_symbol_price(self, current_symbol_price: i64) -> (r: Self)
        ensures
            r == (Self { current_symbol_price: Some(current_symbol_price), ..self }),
    {
        let mut builder = self;
        builder.current_symbol_price = Some(current_symbol_price);
        builder
    }

    pub fn current_avg_price(self, current_avg_price: i64) -> (r: Self)
        ensures
            r == (Self { current_avg_price: Some(current_avg_price), ..self }),
    {
        let mut builder = self;
        builder.current_avg_price = Some(current_avg_price);
        builder
    }

    pub fn unrealised_pnl(self, unrealised_pnl: i64) -> (r: Self)
        ensures
            r == (Self { unrealised_pnl: Some(unrealised_pnl), ..self }),
    {
        let mut builder = self;
        builder.unrealised_pnl = Some(unrealised_pnl);
        builder
    }

    pub fn realised_pnl(self, realised_pnl: i64) -> (r: Self)
        ensures
            r == (Self { realised_pnl: Some(realised_pnl), ..self }),
    {
        let mut builder = self;
        builder.realised_pnl = Some(realised_pnl);
        builder
    }

    /// What the first unset field that a position needs is reported as; `None`
    /// when every needed field is set. The exit balance is not needed.
    pub open spec fn missing(&self) -> Option<Seq<char>> {
        if self.position_id is None {
            Some("position_id is required"@)
        } else if self.enter_ts is None {
            Some("enter_ts is required"@)
        } else if self.update_ts is None {
            Some("update_ts is required"@)
        } else if self.exchange is None {
            Some("exchange is required"@)
        } else if self.instrument is None {
            Some("instrument is required"@)
        } else if self.side is None {
            Some("side is required"@)
        } else if self.current_size is None {
            Some("current_size is required"@)
        } else if self.current_fees_total is None {
            Some("current_fees_total is required"@)
        } else if self.current_avg_price_gross is None {
            Some("current_avg_price_gross is required"@)
        } else if self.current_symbol_price is None {
            Some("current_symbol_price is required"@)
        } else if self.current_avg_price is None {
            Some("current_avg_price is required"@)
        } else if self.unrealised_pnl is None {
            Some("unrealised_pnl is required"@)
        } else if self.realised_pnl is None {
            Some("realised_pnl is required"@)
        } else {
            None
        }
    }

    /// The aggregates that a complete builder holds.
    pub open spec fn built(&self) -> PositionMeta {
        PositionMeta {
            position_id: self.position_id->Some_0,
            enter_ts: self.enter_ts->Some_0,
            update_ts: self.update_ts->Some_0,
            exchange: self.exchange->Some_0,
            instrument: self.instrument->Some_0,
            side: self.side->Some_0,
            current_size: self.current_size->Some_0,
            current_fees_total: self.current_fees_total->Some_0,
            current_avg_price_gross: self.current_avg_price_gross->Some_0,
            current_symbol_price: self.current_symbol_price->Some_0,
            current_avg_price: self.current_avg_price->Some_0,
            unrealised_pnl: self.unrealised_pnl->Some_0,
            realised_pnl: self.realised_pnl->Some_0,
        }
    }

    /// The aggregates collected, or `BuilderIncomplete` naming the first field
    /// that is missing.
    pub fn build(self) -> (r: Result<PositionMeta, ExchangeError>)
        ensures
            match self.missing() {
                None => r == Ok::<PositionMeta, ExchangeError>(self.built()),
                Some(text) => r is Err && (r->Err_0 matches ExchangeError::BuilderIncomplete(s) && s@ == text),
            },
    {
        let position_id = match self.position_id {
            Some(v) => v,
            None => {
                return Err(incomplete("position_id is required"));
            },
        };
        let enter_ts = match self.enter_ts {
            Some(v) => v,
            None => {
                return Err(incomplete("enter_ts is required"));
            },
        };
        let update_ts = match self.update_ts {
            Some(v) => v,
            None => {
                return Err(incomplete("update_ts is required"));
            },
        };
        let exchange = match self.exchange {
            Some(v) => v,
            None => {
                return Err(incomplete("exchange is required"));
            },
        };
        let instrument = match self.instrument {
            Some(v) => v,
            None => {
                return Err(incomplete("instrument is required"));
            },
        };
        let side = match self.side {
            Some(v) => v,
            None => {
                return Err(incomplete("side is required"));
            },
        };
        let current_size = match self.current_size {
            Some(v) => v,
            None => {
                return Err(incomplete("current_size is required"));
            },
        };
        let current_fees_total = match self.current_fees_total {
            Some(v) => v,
            None => {
                return Err(incomplete("current_fees_total is required"));
            },
        };
        let current_avg_price_gross = match self.current_avg_price_gross {
            Some(v) => v,
            None => {
                return Err(incomplete("current_avg_price_gross is required"));
            },
        };
        let current_symbol_price = match self.current_symbol_price {
            Some(v) => v,
            None => {
                return Err(incomplete("current_symbol_price is required"));
            },
        };
        let current_avg_price = match self.current_avg_price {
            Some(v) => v,
            None => {
                return Err(incomplete("current_avg_price is required"));
            },
        };
        let unrealised_pnl = match self.unrealised_pnl {
            Some(v) => v,
            None => {
                return Err(incomplete("unrealised_pnl is required"));
            },
        };
        let realised_pnl = match self.realised_pnl {
            Some(v) => v,
            None => {
                return Err(incomplete("realised_pnl is required"));
            },
        };
        Ok(
            PositionMeta {
                position_id,
                enter_ts,
                update_ts,
                exchange,
                instrument,
                side,
                current_size,
                current_fees_total,
                current_avg_price_gross,
                current_symbol_price,
                current_avg_price,
                unrealised_pnl,
                realised_pnl,
            },
        )
    }
}

impl Default for PositionMetaBuilder {
    fn default() -> (r: Self)
        ensures
            r == Self::empty(),
    {
        Self::new()
    }
}

} // verus!
