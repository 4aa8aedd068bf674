//! The account: balances, order books and positions of one client, and the
//! rules by which requests and market trades change them.
//!
//! Every operation either succeeds and changes the account as its contract
//! says, or fails and leaves the account as it was. What the client is to be
//! told is appended to the queue `events`, in the order in which it happened.
use rayon::iter::{IndexedParallelIterator, IntoParallelRefIterator};
use vstd::prelude::*;
use vstd::string::StringExecFns;
use crate::account_orders::{delayed, resting_orders, same_books, AccountOrders};
use crate::balance::{
    entry_or_fresh, lists_entries, release_balance, reserve_balance, reserve_token, settlement, settlement_event, settles,
    updated_by, wall_clock_millis, AccountBalances, Balance, BalanceDelta, TokenBalance,
};
use crate::config::{
    lemma_rates_of_in_range, AccountConfig, PositionDirectionMode, PositionMarginMode, SandboxMode,
};
use crate::error::{ids_exhausted, is_ids_exhausted, is_out_of_range, out_of_range, ExchangeError};
use crate::event::{lemma_views_push, sandbox_event, views, AccountEvent, AccountEventKind, EventKindView, EventView};
use crate::fixed::{
    div_fixed, fits_i64, lemma_notional_monotonic, mul_fixed, notional, scaled_div, scaled_mul, sub_fixed, SCALE,
};
use crate::instrument::{Exchange, Instrument, InstrumentKey, InstrumentKind, Side, Token};
use crate::order::{
    clone_cid, valid_id_format, Cancelled, ClientOrderId, Open, Order, OrderId, OrderInstruction, OrderRole, RequestCancel,
    RequestOpen,
};
use crate::orderbook::{
    best_index, determine_role, match_market_trade, match_side, matching_side, opened, post_only_violation, role_for,
};
use crate::position::{
    held, holds_key, lemma_long_short_update_wf, lemma_net_update_one_sided, lemma_net_update_wf,
    long_short_update, net_update, opened_position, place_of, position_update, with_meta, without,
    AccountClosedPositions, AccountPositions, Holdings, PerpetualPosition, PerpetualPositionConfig,
    Position,
};
use crate::position_meta::PositionMeta;
use crate::trade::{instrument_named, side_named, ClientTrade, MarketTrade};

verus! {

/// `uuid::Uuid`: an identifier that the account carries and never looks into.
#[verifier::external_type_specification]
#[verifier::external_body]
pub struct ExUuid(uuid::Uuid);

/// `uuid::Uuid::new_v4`: a random identifier. Nothing is known of its value.
#[verifier::external_body]
fn new_session_id() -> (r: uuid::Uuid) {
    uuid::Uuid::new_v4()
}

/// The account of one client of the exchange.
pub struct Account {
    /// Identifies this handle on the account.
    pub current_session: uuid::Uuid,
    /// The number of the machine that runs the account.
    pub machine_id: u64,
    /// The exchange's time: that of the last market trade, or the wall clock.
    pub exchange_timestamp: i64,
    pub config: AccountConfig,
    pub orders: AccountOrders,
    pub balances: AccountBalances,
    pub positions: AccountPositions,
    pub closed_positions: AccountClosedPositions,
    /// The events not yet handed to the client, oldest first.
    pub events: Vec<AccountEvent>,
}

impl Clone for Account {
    /// A second handle on an account with the same contents: the session id
    /// is new, everything else is copied.
    fn clone(&self) -> (r: Self)
        ensures
            r.machine_id == self.machine_id,
            r.exchange_timestamp == self.exchange_timestamp,
            r.config.execution_mode == self.config.execution_mode,
            r.config.position_direction_mode == self.config.position_direction_mode,
            r.config.position_margin_mode == self.config.position_margin_mode,
            r.config.account_leverage_rate == self.config.account_leverage_rate,
            r.config.funding_rate == self.config.funding_rate,
            r.config.fees_book@ == self.config.fees_book@,
            same_books(self.orders, r.orders),
            r.balances@ == self.balances@,
            r.holdings() == self.holdings(),
            r.positions.margin_pos@ == self.positions.margin_pos@,
            r.positions.futures_pos@ == self.positions.futures_pos@,
            r.positions.option_pos@ == self.positions.option_pos@,
            r.event_views() == self.event_views(),
            self.wf() ==> r.wf(),
    {
        let mut events: Vec<AccountEvent> = Vec::new();
        let mut i: usize = 0;
        while i < self.events.len()
            invariant
                i <= self.events@.len(),
                events@.len() == i,
                forall|k: int| 0 <= k < i ==> (#[trigger] events@[k])@ == self.events@[k]@,
            decreases self.events@.len() - i,
        {
            events.push(self.events[i].clone());
            i += 1;
        }
        let copy = Account {
            current_session: new_session_id(),
            machine_id: self.machine_id,
            exchange_timestamp: self.exchange_timestamp,
            config: self.config.clone(),
            orders: self.orders.clone(),
            balances: self.balances.duplicate(),
            positions: self.positions.clone(),
            closed_positions: self.closed_positions.clone(),
            events,
        };
        proof {
            if self.wf() {
                assert forall|key: InstrumentKey| self.positions.has_long(key) == copy.positions.has_long(key)
                    && self.positions.has_short(key) == copy.positions.has_short(key) by {}
                if self.config.position_direction_mode == PositionDirectionMode::Net {
                    assert forall|key: InstrumentKey| !(#[trigger] copy.positions.has_long(key)
                        && #[trigger] copy.positions.has_short(key)) by {
                        assert(!(self.positions.has_long(key) && self.positions.has_short(key)));
                    }
                }
            }
        }
        copy
    }
}

/// Collects the parts of an account.
pub struct AccountInitiator {
    pub machine_id: Option<u64>,
    pub config: Option<AccountConfig>,
    pub orders: Option<AccountOrders>,
    pub balances: Option<AccountBalances>,
    pub positions: Option<AccountPositions>,
    pub closed_positions: Option<AccountClosedPositions>,
}

/// The error of a builder that lacks what `text` names.
fn incomplete(text: &str) -> (e: ExchangeError)
    ensures
        e matches ExchangeError::BuilderIncomplete(s) && s@ == text@,
{
    ExchangeError::BuilderIncomplete(String::from_str(text))
}

impl AccountInitiator {
    /// A builder with no part set.
    pub fn new() -> (r: Self)
        ensures
            r.machine_id is None,
            r.config is None,
            r.orders is None,
            r.balances is None,
            r.positions is None,
            r.closed_positions is None,
    {
        AccountInitiator {
            machine_id: None,
            config: None,
            orders: None,
            balances: None,
            positions: None,
            closed_positions: None,
        }
    }

    pub fn machine_id(self, value: u64) -> (r: Self)
        ensures
            r == (Self { machine_id: Some(value), ..self }),
    {
        let mut builder = self;
        builder.machine_id = Some(value);
        builder
    }

    pub fn config(self, value: AccountConfig) -> (r: Self)
        ensures
            r == (Self { config: Some(value), ..self }),
    {
        let mut builder = self;
        builder.config = Some(value);
        builder
    }

    pub fn orders(self, value: AccountOrders) -> (r: Self)
        ensures
            r == (Self { orders: Some(value), ..self }),
    {
        let mut builder = self;
        builder.orders = Some(value);
        builder
    }

    pub fn balances(self, value: AccountBalances) -> (r: Self)
        ensures
            r == (Self { balances: Some(value), ..self }),
    {
        let mut builder = self;
        builder.balances = Some(value);
        builder
    }

    pub fn positions(self, value: AccountPositions) -> (r: Self)
        ensures
            r == (Self { positions: Some(value), ..self }),
    {
        let mut builder = self;
        builder.positions = Some(value);
        builder
    }

    pub fn closed_positions(self, value: AccountClosedPositions) -> (r: Self)
        ensures
            r == (Self { closed_positions: Some(value), ..self }),
    {
        let mut builder = self;
        builder.closed_positions = Some(value);
        builder
    }

    /// What the first unset part that an account needs is reported as. The
    /// machine number and the record of closed positions are not needed.
    pub open spec fn missing(&self) -> Option<Seq<char>> {
        if self.config is None {
            Some("config is required"@)
        } else if self.orders is None {
            Some("orders are required"@)
        } else if self.balances is None {
            Some("balances are required"@)
        } else if self.positions is None {
            Some("positions are required"@)
        } else {
            None
        }
    }

    /// The account made of the parts, with a fresh session id, the exchange's
    /// time at zero and no event queued; the machine number defaults to zero and
    /// the record of closed positions to an empty one. `BuilderIncomplete` names
    /// the first part that is missing.
    pub fn build(self) -> (r: Result<Account, ExchangeError>)
        ensures
            match self.missing() {
                Some(text) => r is Err && (r->Err_0 matches ExchangeError::BuilderIncomplete(s) && s@ == text),
                None => r is Ok && {
                    let account = r->Ok_0;
                    &&& account.config == self.config->Some_0
                    &&& account.orders == self.orders->Some_0
                    &&& account.balances == self.balances->Some_0
                    &&& account.positions == self.positions->Some_0
                    &&& account.exchange_timestamp == 0
                    &&& account.events@.len() == 0
                    &&& account.machine_id == (if self.machine_id is Some {
                        self.machine_id->Some_0
                    } else {
                        0
                    })
                    &&& (self.config->Some_0.wf() && self.orders->Some_0.wf() && self.positions->Some_0.wf() && (
                    self.config->Some_0.position_direction_mode == PositionDirectionMode::Net
                        ==> self.positions->Some_0.one_sided())) ==> account.wf()
                    &&& self.closed_positions is Some ==> account.closed_positions == self.closed_positions->Some_0
                    &&& self.closed_positions is None ==> account.closed_positions.perpetual_pos_long@.len() == 0
                        && account.closed_positions.perpetual_pos_short@.len() == 0
                },
            },
    {
        let config = match self.config {
            Some(v) => v,
            None => {
                return Err(incomplete("config is required"));
            },
        };
        let orders = match self.orders {
            Some(v) => v,
            None => {
                return Err(incomplete("orders are required"));
            },
        };
        let balances = match self.balances {
            Some(v) => v,
            None => {
                return Err(incomplete("balances are required"));
            },
        };
        let positions = match self.positions {
            Some(v) => v,
            None => {
                return Err(incomplete("positions are required"));
            },
        };
        let closed_positions = match self.closed_positions {
            Some(v) => v,
            None => AccountClosedPositions::init(),
        };
        let machine_id = match self.machine_id {
            Some(v) => v,
            None => 0,
        };
        Ok(
            Account {
                current_session: new_session_id(),
                machine_id,
                exchange_timestamp: 0,
                config,
                orders,
                balances,
                positions,
                closed_positions,
                events: Vec::new(),
            },
        )
    }
}

impl Default for AccountInitiator {
    fn default() -> (r: Self)
        ensures
            r.missing() == Some("config is required"@),
    {
        Self::new()
    }
}

/// The error that refuses a request to open an order for the reason `text`.
fn invalid_open(text: &str) -> (e: ExchangeError)
    ensures
        e matches ExchangeError::InvalidRequestOpen(s) && s@ == text@,
{
    ExchangeError::InvalidRequestOpen(String::from_str(text))
}

/// The error that refuses a request to cancel an order for the reason `text`.
fn invalid_cancel(text: &str) -> (e: ExchangeError)
    ensures
        e matches ExchangeError::InvalidRequestCancel(s) && s@ == text@,
{
    ExchangeError::InvalidRequestCancel(String::from_str(text))
}

/// What is wrong with a request to open an order, if anything: the first of
/// a malformed client order id, a price or size that is not positive, equal
/// base and quote tokens, and a value that is not representable.
pub open spec fn open_defect(order: Order<RequestOpen>) -> Option<Seq<char>> {
    if order.cid is Some && !valid_id_format(order.cid->Some_0@) {
        Some("invalid client order id"@)
    } else if order.state.price <= 0 {
        Some("price must be positive"@)
    } else if order.state.size <= 0 {
        Some("size must be positive"@)
    } else if order.instrument.base@ == order.instrument.quote@ {
        Some("base and quote tokens must differ"@)
    } else if !fits_i64(notional(order.state.price as int, order.state.size as int)) {
        Some("order value out of range"@)
    } else {
        None
    }
}

/// What is wrong with a request to cancel an order, if anything: the first of
/// no id of either kind, an order id of zero, a malformed client order id, and
/// equal base and quote tokens.
pub open spec fn cancel_defect(order: Order<RequestCancel>) -> Option<Seq<char>> {
    if order.state.id is None && order.cid is None {
        Some("order id and client order id are both missing"@)
    } else if order.state.id is Some && order.state.id->Some_0.0 == 0 {
        Some("order id is invalid"@)
    } else if order.cid is Some && !valid_id_format(order.cid->Some_0@) {
        Some("invalid client order id"@)
    } else if order.instrument.base@ == order.instrument.quote@ {
        Some("base and quote tokens must differ"@)
    } else {
        None
    }
}

/// The kinds of instrument for which an order reserves balance.
pub open spec fn reserves_balance(kind: InstrumentKind) -> bool {
    kind == InstrumentKind::Spot || kind == InstrumentKind::Perpetual || kind == InstrumentKind::Future || kind
        == InstrumentKind::CryptoLeveragedToken
}

/// The leverage that applies to an order: that of the account, and one for spot.
pub open spec fn leverage_for(kind: InstrumentKind, leverage: int) -> int {
    if kind == InstrumentKind::Spot {
        SCALE as int
    } else {
        leverage
    }
}

/// The balance that an order must find available: for a buy the notional
/// times the leverage, in the quote token; for a sell the size times the
/// leverage, in the base token.
pub open spec fn required_balance(kind: InstrumentKind, side: Side, price: int, size: int, leverage: int) -> int {
    match side {
        Side::Buy => scaled_mul(notional(price, size), leverage_for(kind, leverage)),
        Side::Sell => scaled_mul(size, leverage_for(kind, leverage)),
    }
}

/// [`required_balance`] and the notional it starts from are representable.
pub open spec fn requirement_representable(
    kind: InstrumentKind,
    side: Side,
    price: int,
    size: int,
    leverage: int,
) -> bool {
    &&& side == Side::Buy ==> fits_i64(notional(price, size))
    &&& fits_i64(required_balance(kind, side, price, size, leverage))
}

/// Why a request to open an order is refused.
pub enum OpenRefusal {
    /// The request is malformed, for the stated reason.
    Invalid(Seq<char>),
    /// The instrument is not a perpetual.
    UnsupportedKind,
    /// The side conflicts with the position held, under the net direction mode.
    Direction,
    /// A post-only order would trade at once.
    PostOnly,
    /// The account is configured for cross margin.
    CrossMargin,
    /// The account has no balance of the token.
    UnknownToken(Token),
    /// The available balance of the token does not cover the order.
    Insufficient(Token),
    /// The account has no book for the instrument.
    NoBook,
    /// The book has given out its last order id.
    IdsExhausted,
}

/// `e` is the error that reports the refusal `k`.
pub open spec fn reports(e: ExchangeError, k: OpenRefusal) -> bool {
    match k {
        OpenRefusal::Invalid(text) => e matches ExchangeError::InvalidRequestOpen(s) && s@ == text,
        OpenRefusal::UnsupportedKind => e == ExchangeError::UnsupportedInstrumentKind,
        OpenRefusal::Direction => e == ExchangeError::InvalidDirection,
        OpenRefusal::PostOnly => e == ExchangeError::PostOnlyViolation,
        OpenRefusal::CrossMargin => e matches ExchangeError::NotImplemented(feature) && feature@
            == "cross margin"@,
        OpenRefusal::UnknownToken(token) => e == ExchangeError::UnknownToken(token),
        OpenRefusal::Insufficient(token) => e == ExchangeError::InsufficientBalance(token),
        OpenRefusal::NoBook => e == ExchangeError::InvalidInstrument,
        OpenRefusal::IdsExhausted => is_ids_exhausted(e),
    }
}

/// The book of `order`'s instrument gained `order` at the end of its side and
/// advanced its counter by one; nothing else in the books changed.
pub open spec fn book_gained(before: AccountOrders, after: AccountOrders, order: Order<Open>) -> bool {
    let i = before.slot(order.instrument@);
    &&& after.latency == before.latency
    &&& after.books@.len() == before.books@.len()
    &&& forall|j: int| 0 <= j < before.books@.len() && j != i ==> after.books@[j] == before.books@[j]
    &&& after.books@[i].instrument == before.books@[i].instrument
    &&& after.books@[i].orders.batch_id == before.books@[i].orders.batch_id + 1
    &&& after.books@[i].orders.side(order.side) == before.books@[i].orders.side(order.side).push(order)
    &&& after.books@[i].orders.side(order.side.spec_opposite()) == before.books@[i].orders.side(
        order.side.spec_opposite(),
    )
}

/// `after` differs from `before` at most in balances, books and events.
pub open spec fn same_holdings(before: Account, after: Account) -> bool {
    &&& after.current_session == before.current_session
    &&& after.machine_id == before.machine_id
    &&& after.exchange_timestamp == before.exchange_timestamp
    &&& after.config == before.config
    &&& after.positions == before.positions
    &&& after.closed_positions == before.closed_positions
}

impl Account {
    /// A builder for an account, with no part set.
    pub fn initiate() -> (r: AccountInitiator)
        ensures
            r.machine_id is None,
            r.config is None,
            r.orders is None,
            r.balances is None,
            r.positions is None,
            r.closed_positions is None,
    {
        AccountInitiator::new()
    }

    /// The account is consistent: its configuration is usable, its books and
    /// positions are well formed, and under the net direction mode no
    /// instrument is held both long and short.
    pub open spec fn wf(&self) -> bool {
        &&& self.config.wf()
        &&& self.orders.wf()
        &&& self.positions.wf()
        &&& self.config.position_direction_mode == PositionDirectionMode::Net ==> self.positions.one_sided()
    }

    /// Whether the account is consistent.
    pub fn is_wf(&self) -> (r: bool)
        ensures
            r == self.wf(),
    {
        if !self.config.is_valid() || !self.orders.is_wf() || !self.positions.is_wf() {
            return false;
        }
        match self.config.position_direction_mode {
            PositionDirectionMode::Net => self.positions.is_one_sided(),
            PositionDirectionMode::LongShort => true,
        }
    }

    /// The queued events as contracts speak of them.
    pub open spec fn event_views(&self) -> Seq<EventView> {
        views(self.events@)
    }

    /// Queues an event for the client.
    pub fn send_account_event(&mut self, account_event: AccountEvent)
        ensures
            final(self).events@ == old(self).events@.push(account_event),
            final(self).event_views() == old(self).event_views().push(account_event@),
            final(self).current_session == old(self).current_session,
            final(self).machine_id == old(self).machine_id,
            final(self).exchange_timestamp == old(self).exchange_timestamp,
            final(self).config == old(self).config,
            final(self).orders == old(self).orders,
            final(self).balances == old(self).balances,
            final(self).positions == old(self).positions,
            final(self).closed_positions == old(self).closed_positions,
    {
        proof {
            lemma_views_push(self.events@, account_event);
        }
        self.events.push(account_event);
    }

    /// Hands over the queued events, oldest first, and empties the queue.
    pub fn drain_events(&mut self) -> (r: Vec<AccountEvent>)
        ensures
            r@ == old(self).events@,
            final(self).events@.len() == 0,
            final(self).current_session == old(self).current_session,
            final(self).machine_id == old(self).machine_id,
            final(self).exchange_timestamp == old(self).exchange_timestamp,
            final(self).config == old(self).config,
            final(self).orders == old(self).orders,
            final(self).balances == old(self).balances,
            final(self).positions == old(self).positions,
            final(self).closed_positions == old(self).closed_positions,
    {
        let mut drained: Vec<AccountEvent> = Vec::new();
        drained.append(&mut self.events);
        drained
    }

    /// Every instruction of the set is one that the exchange recognises.
    pub fn validate_order_instruction(kind: OrderInstruction) -> (r: Result<(), ExchangeError>)
        ensures
            r is Ok,
    {
        match kind {
            OrderInstruction::Market
            | OrderInstruction::Limit
            | OrderInstruction::ImmediateOrCancel
            | OrderInstruction::FillOrKill
            | OrderInstruction::PostOnly
            | OrderInstruction::GoodTilCancelled
            | OrderInstruction::Cancel => Ok(()),
        }
    }

    /// Accepts a request to open an order that has no [`open_defect`], and
    /// refuses any other with `InvalidRequestOpen` and the defect as the reason.
    pub fn validate_order_request_open(order: &Order<RequestOpen>) -> (r: Result<(), ExchangeError>)
        ensures
            match open_defect(*order) {
                None => r is Ok,
                Some(text) => r is Err && (r->Err_0 matches ExchangeError::InvalidRequestOpen(s) && s@ == text),
            },
    {
        if let Some(cid) = &order.cid {
            if !ClientOrderId::validate_id_format(cid.0.as_str()) {
                return Err(invalid_open("invalid client order id"));
            }
        }
        let _ = Account::validate_order_instruction(order.instruction);
        if order.state.price <= 0 {
            return Err(invalid_open("price must be positive"));
        }
        if order.state.size <= 0 {
            return Err(invalid_open("size must be positive"));
        }
        if order.instrument.base.same(&order.instrument.quote) {
            return Err(invalid_open("base and quote tokens must differ"));
        }
        if mul_fixed(order.state.price, order.state.size).is_none() {
            return Err(invalid_open("order value out of range"));
        }
        Ok(())
    }

    /// Accepts a request to cancel an order that has no [`cancel_defect`], and
    /// refuses any other with `InvalidRequestCancel` and the defect as the reason.
    pub fn validate_order_request_cancel(order: &Order<RequestCancel>) -> (r: Result<(), ExchangeError>)
        ensures
            match cancel_defect(*order) {
                None => r is Ok,
                Some(text) => r is Err && (r->Err_0 matches ExchangeError::InvalidRequestCancel(s) && s@ == text),
            },
    {
        if order.state.id.is_none() && order.cid.is_none() {
            return Err(invalid_cancel("order id and client order id are both missing"));
        }
        if let Some(id) = &order.state.id {
            if id.value() == 0 {
                return Err(invalid_cancel("order id is invalid"));
            }
        }
        if let Some(cid) = &order.cid {
            if !ClientOrderId::validate_id_format(cid.0.as_str()) {
                return Err(invalid_cancel("invalid client order id"));
            }
        }
        if order.instrument.base.same(&order.instrument.quote) {
            return Err(invalid_cancel("base and quote tokens must differ"));
        }
        Ok(())
    }

    /// The exchange's time.
    pub fn get_exchange_ts(&self) -> (r: Result<i64, ExchangeError>)
        ensures
            r == Ok::<i64, ExchangeError>(self.exchange_timestamp),
    {
        Ok(self.exchange_timestamp)
    }

    /// Every balance of the account, each exactly once, in no particular order.
    pub fn get_balances(&self) -> (r: Vec<TokenBalance>)
        ensures
            lists_entries(r@, self.balances@),
    {
        self.balances.fetch_all()
    }

    /// The balance of `token`, or `UnknownToken` when the account has none.
    pub fn get_balance(&self, token: &Token) -> (r: Result<Balance, ExchangeError>)
        ensures
            self.balances@.contains_key(token@) ==> r == Ok::<Balance, ExchangeError>(self.balances@[token@]),
            !self.balances@.contains_key(token@) ==> r == Err::<Balance, ExchangeError>(
                ExchangeError::UnknownToken(*token),
            ),
    {
        self.balances.balance(token)
    }

    /// Writes `value` over the balance of `token` and returns the balance it
    /// replaced; `UnknownToken`, changing nothing, when the account has none.
    pub fn get_balance_mut(&mut self, token: &Token, value: Balance) -> (r: Result<Balance, ExchangeError>)
        ensures
            old(self).balances@.contains_key(token@) ==> r == Ok::<Balance, ExchangeError>(
                old(self).balances@[token@],
            ) && final(self).balances@ == old(self).balances@.insert(token@, value),
            !old(self).balances@.contains_key(token@) ==> r == Err::<Balance, ExchangeError>(
                ExchangeError::UnknownToken(*token),
            ) && final(self).balances@ == old(self).balances@,
            final(self).current_session == old(self).current_session,
            final(self).machine_id == old(self).machine_id,
            final(self).exchange_timestamp == old(self).exchange_timestamp,
            final(self).config == old(self).config,
            final(self).orders == old(self).orders,
            final(self).positions == old(self).positions,
            final(self).closed_positions == old(self).closed_positions,
            final(self).events == old(self).events,
    {
        self.balances.balance_mut(token, value)
    }

    /// Whether `token` has an available balance of at least `required_balance`:
    /// `UnknownToken` when the account has no balance of the token, otherwise
    /// `InsufficientBalance` exactly when `available < required_balance`.
    pub fn has_sufficient_available_balance(&self, token: &Token, required_balance: i64) -> (r: Result<
        (),
        ExchangeError,
    >)
        ensures
            !self.balances@.contains_key(token@) ==> r == Err::<(), ExchangeError>(
                ExchangeError::UnknownToken(*token),
            ),
            self.balances@.contains_key(token@) && self.balances@[token@].available >= required_balance ==> r is Ok,
            self.balances@.contains_key(token@) && self.balances@[token@].available < required_balance ==> r
                == Err::<(), ExchangeError>(ExchangeError::InsufficientBalance(*token)),
    {
        self.balances.has_sufficient_available_balance(token, required_balance)
    }
    /// The token and the amount of it that `order` must find available.
    /// `UnsupportedInstrumentKind` for a kind of instrument that reserves
    /// nothing; `InsufficientBalance` when the amount is beyond every
    /// representable balance.
    pub fn required_available_balance(&self, order: &Order<RequestOpen>) -> (r: Result<(Token, i64), ExchangeError>)
        ensures
            !reserves_balance(order.instrument.kind) ==> r == Err::<(Token, i64), ExchangeError>(
                ExchangeError::UnsupportedInstrumentKind,
            ),
            reserves_balance(order.instrument.kind) ==> (if requirement_representable(
                order.instrument.kind,
                order.side,
                order.state.price as int,
                order.state.size as int,
                self.config.account_leverage_rate as int,
            ) {
                r == Ok::<(Token, i64), ExchangeError>(
                    (
                        reserve_token(order.instrument, order.side),
                        required_balance(
                            order.instrument.kind,
                            order.side,
                            order.state.price as int,
                            order.state.size as int,
                            self.config.account_leverage_rate as int,
                        ) as i64,
                    ),
                )
            } else {
                r == Err::<(Token, i64), ExchangeError>(
                    ExchangeError::InsufficientBalance(reserve_token(order.instrument, order.side)),
                )
            }),
    {
        let leverage: i64 = match order.instrument.kind {
            InstrumentKind::Spot => SCALE,
            InstrumentKind::Perpetual | InstrumentKind::Future | InstrumentKind::CryptoLeveragedToken => {
                self.config.account_leverage_rate
            },
            _ => {
                return Err(ExchangeError::UnsupportedInstrumentKind);
            },
        };
        match order.side {
            Side::Buy => {
                let required = match mul_fixed(order.state.price, order.state.size) {
                    Some(value) => mul_fixed(value, leverage),
                    None => None,
                };
                match required {
                    Some(required) => Ok((order.instrument.quote.clone(), required)),
                    None => Err(ExchangeError::InsufficientBalance(order.instrument.quote.clone())),
                }
            },
            Side::Sell => match mul_fixed(order.state.size, leverage) {
                Some(required) => Ok((order.instrument.base.clone(), required)),
                None => Err(ExchangeError::InsufficientBalance(order.instrument.base.clone())),
            },
        }
    }

    /// Why [`Self::attempt_atomic_open`] refuses `order` at `current_price`, the
    /// first reason that applies; `None` when it admits the order.
    pub open spec fn atomic_open_refusal(&self, current_price: i64, order: Order<RequestOpen>) -> Option<OpenRefusal> {
        let token = reserve_token(order.instrument, order.side);
        if open_defect(order) is Some {
            Some(OpenRefusal::Invalid(open_defect(order)->Some_0))
        } else if order.instrument.kind != InstrumentKind::Perpetual {
            Some(OpenRefusal::UnsupportedKind)
        } else if post_only_violation(order.instruction, order.side, order.state.price, current_price) {
            Some(OpenRefusal::PostOnly)
        } else if self.config.position_margin_mode == PositionMarginMode::Cross {
            Some(OpenRefusal::CrossMargin)
        } else if !self.balances@.contains_key(token@) {
            Some(OpenRefusal::UnknownToken(token))
        } else if !requirement_representable(
            order.instrument.kind,
            order.side,
            order.state.price as int,
            order.state.size as int,
            self.config.account_leverage_rate as int,
        ) || self.balances@[token@].available < required_balance(
            order.instrument.kind,
            order.side,
            order.state.price as int,
            order.state.size as int,
            self.config.account_leverage_rate as int,
        ) {
            Some(OpenRefusal::Insufficient(token))
        } else if !self.orders.has_book(order.instrument@) {
            Some(OpenRefusal::NoBook)
        } else if self.orders.book(order.instrument@).batch_id == u64::MAX {
            Some(OpenRefusal::IdsExhausted)
        } else {
            None
        }
    }

    /// The resting order that `order` becomes when admitted at `current_price`:
    /// numbered by its book's counter, nothing filled, its role decided against
    /// the current price.
    pub open spec fn admitted(&self, current_price: i64, order: Order<RequestOpen>) -> Order<Open> {
        opened(
            order,
            OrderId(self.orders.book(order.instrument@).batch_id),
            role_for(order.instruction, order.side, order.state.price, current_price),
        )
    }

    /// The balance of the reserved token after `order` was admitted: the
    /// available amount lowered by the required balance, the total untouched.
    pub open spec fn reserved(&self, order: Order<RequestOpen>) -> Balance {
        let held = self.balances@[reserve_token(order.instrument, order.side)@];
        Balance {
            available: (held.available - required_balance(
                order.instrument.kind,
                order.side,
                order.state.price as int,
                order.state.size as int,
                self.config.account_leverage_rate as int,
            )) as i64,
            ..held
        }
    }

    /// `after` is this account after `order` was admitted at `current_price`:
    /// the order rests in its book, the required balance is no longer
    /// available, and the client is told first of the balance, then of the order.
    pub open spec fn opened_into(&self, current_price: i64, order: Order<RequestOpen>, after: Account) -> bool {
        let token = reserve_token(order.instrument, order.side);
        let open = self.admitted(current_price, order);
        &&& same_holdings(*self, after)
        &&& after.balances@ == self.balances@.insert(token@, self.reserved(order))
        &&& book_gained(self.orders, after.orders, open)
        &&& after.event_views() == self.event_views().push(
            sandbox_event(
                self.exchange_timestamp,
                EventKindView::Balance(TokenBalance { token, balance: self.reserved(order) }),
            ),
        ).push(sandbox_event(self.exchange_timestamp, EventKindView::OrdersOpen(seq![open])))
    }

    /// Admits `order` against `current_price`, or refuses it and changes nothing.
    ///
    /// The order is checked for defects, for its kind, for a post-only
    /// violation, for the margin mode and for the balance it requires; then it
    /// is numbered, put into its book, its balance is reserved and the client is told.
    pub fn attempt_atomic_open(&mut self, current_price: i64, order: Order<RequestOpen>) -> (r: Result<
        Order<Open>,
        ExchangeError,
    >)
        requires
            old(self).wf(),
        ensures
            final(self).wf(),
            match old(self).atomic_open_refusal(current_price, order) {
                Some(refusal) => r is Err && reports(r->Err_0, refusal) && *final(self) == *old(self),
                None => r == Ok::<Order<Open>, ExchangeError>(old(self).admitted(current_price, order))
                    && old(self).opened_into(current_price, order, *final(self)),
            },
    {
        match Account::validate_order_request_open(&order) {
            Err(e) => {
                return Err(e);
            },
            Ok(()) => {},
        }
        if order.instrument.kind != InstrumentKind::Perpetual {
            return Err(ExchangeError::UnsupportedInstrumentKind);
        }
        let order_role = match determine_role(&order, current_price) {
            Ok(role) => role,
            Err(e) => {
                return Err(e);
            },
        };
        if self.config.position_margin_mode == PositionMarginMode::Cross {
            return Err(ExchangeError::NotImplemented(String::from_str("cross margin")));
        }
        let token = match order.side {
            Side::Buy => order.instrument.quote.clone(),
            Side::Sell => order.instrument.base.clone(),
        };
        let held = match self.balances.balance(&token) {
            Ok(balance) => balance,
            Err(e) => {
                return Err(e);
            },
        };
        let required_balance = match self.required_available_balance(&order) {
            Ok((_, required)) => required,
            Err(e) => {
                return Err(e);
            },
        };
        if held.available < required_balance {
            return Err(ExchangeError::InsufficientBalance(token));
        }
        let slot = match self.orders.position_of(&order.instrument) {
            Some(slot) => slot,
            None => {
                return Err(ExchangeError::InvalidInstrument);
            },
        };
        if self.orders.books[slot].orders.batch_id == u64::MAX {
            return Err(ids_exhausted());
        }
        proof {
            lemma_requirement_not_negative(
                order.instrument.kind,
                order.side,
                order.state.price as int,
                order.state.size as int,
                self.config.account_leverage_rate as int,
            );
        }
        let ghost before = *self;
        let open_order = match self.orders.books[slot].orders.build_order_open(order, order_role) {
            Some(open) => open,
            None => {
                return Err(ids_exhausted());
            },
        };
        self.orders.books[slot].orders.add_order_open(open_order.clone());
        let updated = Balance {
            time: held.time,
            current_price: held.current_price,
            total: held.total,
            available: held.available - required_balance,
        };
        self.balances.set(&token, updated);
        let exchange_timestamp = self.exchange_timestamp;
        self.send_account_event(
            AccountEvent {
                exchange_timestamp,
                exchange: Exchange::SandBox,
                kind: AccountEventKind::Balance(TokenBalance::new(token, updated)),
            },
        );
        let mut opened_orders: Vec<Order<Open>> = Vec::new();
        opened_orders.push(open_order.clone());
        self.send_account_event(
            AccountEvent {
                exchange_timestamp,
                exchange: Exchange::SandBox,
                kind: AccountEventKind::OrdersOpen(opened_orders),
            },
        );
        proof {
            assert forall|i: int, j: int| 0 <= i < j < self.orders.books@.len() implies (
            #[trigger] self.orders.books@[i]).instrument@ != (#[trigger] self.orders.books@[j]).instrument@ by {
                assert(self.orders.books@[i].instrument == before.orders.books@[i].instrument);
            }
        }
        Ok(open_order)
    }
}

/// What handling one request to open an order does: `after` and `result` are
/// the account and the reply that follow from `before` and `request`.
pub open spec fn open_step(
    before: Account,
    request: Order<RequestOpen>,
    after: Account,
    result: Result<Order<Open>, ExchangeError>,
) -> bool {
    match before.open_refusal(request) {
        Some(refusal) => result is Err && reports(result->Err_0, refusal) && after == before,
        None => result == Ok::<Order<Open>, ExchangeError>(
            before.admitted(before.price_for(request), before.stamped(request)),
        ) && before.opened_into(before.price_for(request), before.stamped(request), after),
    }
}

/// The requests were handled one after the other: `states` are the accounts
/// before, between and after them, `results` the replies.
pub open spec fn open_trace(
    states: Seq<Account>,
    requests: Seq<Order<RequestOpen>>,
    results: Seq<Result<Order<Open>, ExchangeError>>,
) -> bool {
    &&& states.len() == requests.len() + 1
    &&& results.len() == requests.len()
    &&& forall|i: int|
        0 <= i < requests.len() ==> open_step(states[i], #[trigger] requests[i], states[i + 1], results[i])
}

impl Account {
    /// An order on `side` conflicts with the position held under `key`; see
    /// [`AccountPositions::direction_conflict`].
    pub open spec fn direction_conflict(&self, key: InstrumentKey, side: Side, reduce_only: bool) -> bool {
        self.positions.direction_conflict(key, side, reduce_only)
    }

    /// Checks an order's side against the positions held in the instrument.
    /// `UnsupportedInstrumentKind` for an instrument that is not a perpetual,
    /// otherwise `InvalidDirection` exactly on a [`Self::direction_conflict`].
    pub fn check_position_direction_conflict(
        &self,
        instrument: &Instrument,
        new_order_side: Side,
        is_reduce_only: bool,
    ) -> (r: Result<(), ExchangeError>)
        ensures
            instrument.kind != InstrumentKind::Perpetual ==> r == Err::<(), ExchangeError>(
                ExchangeError::UnsupportedInstrumentKind,
            ),
            instrument.kind == InstrumentKind::Perpetual && self.direction_conflict(
                instrument@,
                new_order_side,
                is_reduce_only,
            ) ==> r == Err::<(), ExchangeError>(ExchangeError::InvalidDirection),
            instrument.kind == InstrumentKind::Perpetual && !self.direction_conflict(
                instrument@,
                new_order_side,
                is_reduce_only,
            ) ==> r is Ok,
    {
        self.positions.check_position_direction_conflict(instrument, new_order_side, is_reduce_only)
    }

    /// Whether a position is held on the side of `open`, under its instrument.
    pub fn any_position_open(&self, open: &Order<Open>) -> (r: Result<bool, ExchangeError>)
        ensures
            r == Ok::<bool, ExchangeError>(holds_key(self.positions.perpetuals(open.side), open.instrument@)),
    {
        match open.side {
            Side::Buy => Ok(self.positions.has_long_position(&open.instrument)),
            Side::Sell => Ok(self.positions.has_short_position(&open.instrument)),
        }
    }

    /// The position held on `side` under `instrument`. `InvalidInstrument` for
    /// a spot instrument, `UnsupportedInstrumentKind` for any other that is not
    /// a perpetual.
    pub fn get_position(&self, side: Side, instrument: &Instrument) -> (r: Result<Option<Position>, ExchangeError>)
        ensures
            instrument.kind == InstrumentKind::Spot ==> r is Err && r->Err_0 == ExchangeError::InvalidInstrument,
            instrument.kind != InstrumentKind::Spot && instrument.kind != InstrumentKind::Perpetual ==> r == Err::<
                Option<Position>,
                ExchangeError,
            >(ExchangeError::UnsupportedInstrumentKind),
            instrument.kind == InstrumentKind::Perpetual ==> r is Ok && (r->Ok_0 is Some <==> holds_key(
                self.positions.perpetuals(side),
                instrument@,
            )),
            instrument.kind == InstrumentKind::Perpetual && self.positions.wf() && holds_key(
                self.positions.perpetuals(side),
                instrument@,
            ) ==> r == Ok::<Option<Position>, ExchangeError>(
                Some(Position::Perpetual(held(self.positions.perpetuals(side), instrument@))),
            ),
    {
        match instrument.kind {
            InstrumentKind::Spot => Err(
                ExchangeError::InvalidInstrument,
            ),
            InstrumentKind::Perpetual => match self.positions.get_perpetual(side, instrument) {
                Some(position) => Ok(Some(Position::Perpetual(position))),
                None => Ok(None),
            },
            _ => Err(ExchangeError::UnsupportedInstrumentKind),
        }
    }

    /// The long position held under `instrument`; see [`Self::get_position`].
    pub fn get_position_long(&self, instrument: &Instrument) -> (r: Result<Option<Position>, ExchangeError>)
        ensures
            instrument.kind == InstrumentKind::Spot ==> r is Err && r->Err_0 == ExchangeError::InvalidInstrument,
            instrument.kind != InstrumentKind::Spot && instrument.kind != InstrumentKind::Perpetual ==> r == Err::<
                Option<Position>,
                ExchangeError,
            >(ExchangeError::UnsupportedInstrumentKind),
            instrument.kind == InstrumentKind::Perpetual ==> r is Ok && (r->Ok_0 is Some <==> self.positions.has_long(
                instrument@,
            )),
            instrument.kind == InstrumentKind::Perpetual && self.positions.wf() && self.positions.has_long(
                instrument@,
            ) ==> r == Ok::<Option<Position>, ExchangeError>(
                Some(Position::Perpetual(held(self.positions.perpetual_pos_long@, instrument@))),
            ),
    {
        self.get_position(Side::Buy, instrument)
    }

    /// The short position held under `instrument`; see [`Self::get_position`].
    pub fn get_position_short(&self, instrument: &Instrument) -> (r: Result<Option<Position>, ExchangeError>)
        ensures
            instrument.kind == InstrumentKind::Spot ==> r is Err && r->Err_0 == ExchangeError::InvalidInstrument,
            instrument.kind != InstrumentKind::Spot && instrument.kind != InstrumentKind::Perpetual ==> r == Err::<
                Option<Position>,
                ExchangeError,
            >(ExchangeError::UnsupportedInstrumentKind),
            instrument.kind == InstrumentKind::Perpetual ==> r is Ok && (r->Ok_0 is Some
                <==> self.positions.has_short(instrument@)),
            instrument.kind == InstrumentKind::Perpetual && self.positions.wf() && self.positions.has_short(
                instrument@,
            ) ==> r == Ok::<Option<Position>, ExchangeError>(
                Some(Position::Perpetual(held(self.positions.perpetual_pos_short@, instrument@))),
            ),
    {
        self.get_position(Side::Sell, instrument)
    }

    /// The long and the short position held under `instrument`, in that order.
    pub fn get_position_both_ways(&self, instrument: &Instrument) -> (r: Result<
        (Option<Position>, Option<Position>),
        ExchangeError,
    >)
        ensures
            instrument.kind == InstrumentKind::Spot ==> r is Err && r->Err_0 == ExchangeError::InvalidInstrument,
            instrument.kind != InstrumentKind::Spot && instrument.kind != InstrumentKind::Perpetual ==> r is Err
                && r->Err_0 == ExchangeError::UnsupportedInstrumentKind,
            instrument.kind == InstrumentKind::Perpetual ==> r is Ok && (r->Ok_0.0 is Some
                <==> self.positions.has_long(instrument@)) && (r->Ok_0.1 is Some <==> self.positions.has_short(
                instrument@,
            )),
            instrument.kind == InstrumentKind::Perpetual && self.positions.wf() ==> (self.positions.has_long(
                instrument@,
            ) ==> r->Ok_0.0 == Some(
                Position::Perpetual(held(self.positions.perpetual_pos_long@, instrument@)),
            )) && (self.positions.has_short(instrument@) ==> r->Ok_0.1 == Some(
                Position::Perpetual(held(self.positions.perpetual_pos_short@, instrument@)),
            )),
    {
        let long_pos = match self.get_position(Side::Buy, instrument) {
            Ok(position) => position,
            Err(e) => {
                return Err(e);
            },
        };
        let short_pos = match self.get_position(Side::Sell, instrument) {
            Ok(position) => position,
            Err(e) => {
                return Err(e);
            },
        };
        Ok((long_pos, short_pos))
    }

    /// `request` as it reaches the exchange: in a backtest its timestamp is
    /// delayed by the simulated latency.
    pub open spec fn stamped(&self, request: Order<RequestOpen>) -> Order<RequestOpen> {
        if self.config.execution_mode == SandboxMode::Backtest {
            Order { timestamp: delayed(request.timestamp, self.orders.latency.current_value), ..request }
        } else {
            request
        }
    }

    /// The price that `request` is measured against: the current price of the
    /// token that it reserves.
    pub open spec fn price_for(&self, request: Order<RequestOpen>) -> i64 {
        self.balances@[reserve_token(request.instrument, request.side)@].current_price
    }

    /// Why [`Self::open_order`] refuses `request`, the first reason that
    /// applies; `None` when it admits the order.
    pub open spec fn open_refusal(&self, request: Order<RequestOpen>) -> Option<OpenRefusal> {
        let token = reserve_token(request.instrument, request.side);
        if open_defect(request) is Some {
            Some(OpenRefusal::Invalid(open_defect(request)->Some_0))
        } else if request.instrument.kind != InstrumentKind::Perpetual {
            Some(OpenRefusal::UnsupportedKind)
        } else if self.config.position_direction_mode == PositionDirectionMode::Net && self.direction_conflict(
            request.instrument@,
            request.side,
            request.state.reduce_only,
        ) {
            Some(OpenRefusal::Direction)
        } else if !self.balances@.contains_key(token@) {
            Some(OpenRefusal::UnknownToken(token))
        } else {
            self.atomic_open_refusal(self.price_for(request), self.stamped(request))
        }
    }

    /// Handles one request to open an order: validates it, checks its side
    /// against the positions held, stamps it with the simulated latency, looks
    /// up the current price and admits it. A refused request changes nothing.
    pub fn open_order(&mut self, request: Order<RequestOpen>) -> (r: Result<Order<Open>, ExchangeError>)
        requires
            old(self).wf(),
        ensures
            final(self).wf(),
            open_step(*old(self), request, *final(self), r),
    {
        match Account::validate_order_request_open(&request) {
            Err(e) => {
                return Err(e);
            },
            Ok(()) => {},
        }
        if request.instrument.kind != InstrumentKind::Perpetual {
            return Err(ExchangeError::UnsupportedInstrumentKind);
        }
        if self.config.position_direction_mode == PositionDirectionMode::Net {
            match self.check_position_direction_conflict(&request.instrument, request.side, request.state.reduce_only) {
                Err(e) => {
                    return Err(e);
                },
                Ok(()) => {},
            }
        }
        let ghost received = request;
        let processed_request = match self.config.execution_mode {
            SandboxMode::Backtest => self.orders.process_backtest_requestopen_with_a_simulated_latency(request),
            SandboxMode::Online => request,
        };
        assert(processed_request == self.stamped(received));
        let current_price = match processed_request.side {
            Side::Buy => match self.get_balance(&processed_request.instrument.quote) {
                Ok(balance) => balance.current_price,
                Err(e) => {
                    return Err(e);
                },
            },
            Side::Sell => match self.get_balance(&processed_request.instrument.base) {
                Ok(balance) => balance.current_price,
                Err(e) => {
                    return Err(e);
                },
            },
        };
        self.attempt_atomic_open(current_price, processed_request)
    }

    /// Handles a batch of requests to open orders, one after the other, and
    /// returns one reply for each. A refused request does not stop the batch.
    pub fn open_orders(&mut self, open_requests: Vec<Order<RequestOpen>>) -> (r: Vec<Result<Order<Open>, ExchangeError>>)
        requires
            old(self).wf(),
        ensures
            final(self).wf(),
            exists|states: Seq<Account>| #[trigger]
                open_trace(states, open_requests@, r@) && states[0] == *old(self) && states.last() == *final(self),
    {
        let mut open_results: Vec<Result<Order<Open>, ExchangeError>> = Vec::new();
        let ghost mut states: Seq<Account> = seq![*self];
        let mut i: usize = 0;
        while i < open_requests.len()
            invariant
                i <= open_requests@.len(),
                self.wf(),
                open_trace(states, open_requests@.take(i as int), open_results@),
                states[0] == *old(self),
                states.last() == *self,
            decreases open_requests@.len() - i,
        {
            let request = open_requests[i].clone();
            let ghost before = *self;
            let result = self.open_order(request);
            proof {
                let next = states.push(*self);
                let handled = open_requests@.take(i + 1);
                let replies = open_results@.push(result);
                assert forall|k: int| 0 <= k < handled.len() implies open_step(
                    next[k],
                    #[trigger] handled[k],
                    next[k + 1],
                    replies[k],
                ) by {
                    if k < i {
                        assert(open_requests@.take(i as int)[k] == handled[k]);
                    }
                }
                states = next;
            }
            open_results.push(result);
            i += 1;
        }
        assert(open_requests@.take(i as int) =~= open_requests@);
        open_results
    }
}

/// `order` is the one that `request` asks to cancel: it has the order id of
/// the request, or both carry the same client order id.
pub open spec fn order_ids_match(order: Order<Open>, request: Order<RequestCancel>) -> bool {
    ||| request.state.id is Some && order.state.id == request.state.id->Some_0
    ||| order.cid is Some && request.cid is Some && order.cid->Some_0@ == request.cid->Some_0@
}

/// No order of the list is the one that `request` asks to cancel.
pub open spec fn none_match(orders: Seq<Order<Open>>, request: Order<RequestCancel>) -> bool {
    forall|i: int| 0 <= i < orders.len() ==> !order_ids_match(#[trigger] orders[i], request)
}

/// `rayon`'s `par_iter` and `position_any` over the orders, with
/// [`Account::order_ids_check`] as the predicate: the place of some order for
/// which the predicate holds, not necessarily the first, or `None` when it
/// holds for no order.
#[verifier::external_body]
fn position_any_match(orders: &Vec<Order<Open>>, request: &Order<RequestCancel>) -> (r: Option<usize>)
    ensures
        r is Some ==> r->Some_0 < orders@.len() && order_ids_match(orders@[r->Some_0 as int], *request),
        r is None ==> none_match(orders@, *request),
{
    orders.par_iter().position_any(|order| Account::order_ids_check(order, request))
}

/// The book of `key` lost the order at place `at` of `side`; nothing else in
/// the books changed.
pub open spec fn book_lost(before: AccountOrders, after: AccountOrders, key: InstrumentKey, side: Side, at: int) -> bool {
    let i = before.slot(key);
    &&& after.latency == before.latency
    &&& after.books@.len() == before.books@.len()
    &&& forall|j: int| 0 <= j < before.books@.len() && j != i ==> after.books@[j] == before.books@[j]
    &&& after.books@[i].instrument == before.books@[i].instrument
    &&& after.books@[i].orders.batch_id == before.books@[i].orders.batch_id
    &&& after.books@[i].orders.side(side) == before.books@[i].orders.side(side).remove(at)
    &&& after.books@[i].orders.side(side.spec_opposite()) == before.books@[i].orders.side(side.spec_opposite())
}

/// What handling one request to cancel an order does: `after` and `result`
/// are the account and the reply that follow from `before` and `request`.
///
/// A request with a defect is refused as invalid; one for an instrument
/// without a book, as an invalid instrument; one that no resting order on its
/// side matches, with `OrderNotFound`. Otherwise some matching order is cancelled.
pub open spec fn cancel_step(
    before: Account,
    request: Order<RequestCancel>,
    after: Account,
    result: Result<Order<Cancelled>, ExchangeError>,
) -> bool {
    let key = request.instrument@;
    match cancel_defect(request) {
        Some(text) => result is Err && (result->Err_0 matches ExchangeError::InvalidRequestCancel(s) && s@ == text)
            && after == before,
        None => if !before.orders.has_book(key) {
            result is Err && result->Err_0 == ExchangeError::InvalidInstrument && after == before
        } else if none_match(before.orders.book(key).side(request.side), request) {
            result == Err::<Order<Cancelled>, ExchangeError>(
                ExchangeError::OrderNotFound { client_order_id: request.cid, order_id: request.state.id },
            ) && after == before
        } else {
            exists|at: int|
                0 <= at < before.orders.book(key).side(request.side).len() && order_ids_match(
                    before.orders.book(key).side(request.side)[at],
                    request,
                ) && #[trigger] before.cancelled_at(key, request.side, at, after, result)
        },
    }
}

/// The requests were handled one after the other: `states` are the accounts
/// before, between and after them, `results` the replies.
pub open spec fn cancel_trace(
    states: Seq<Account>,
    requests: Seq<Order<RequestCancel>>,
    results: Seq<Result<Order<Cancelled>, ExchangeError>>,
) -> bool {
    &&& states.len() == requests.len() + 1
    &&& results.len() == requests.len()
    &&& forall|i: int|
        0 <= i < requests.len() ==> cancel_step(states[i], #[trigger] requests[i], states[i + 1], results[i])
}

impl Account {
    /// Whether `order` is the one that `request` asks to cancel.
    pub fn order_ids_check(order: &Order<Open>, request: &Order<RequestCancel>) -> (r: bool)
        ensures
            r == order_ids_match(*order, *request),
    {
        let id_match = match &request.state.id {
            Some(req_id) => order.state.id.0 == req_id.0,
            None => false,
        };
        let cid_match = match (&order.cid, &request.cid) {
            (Some(order_cid), Some(req_cid)) => order_cid.same(req_cid),
            _ => false,
        };
        id_match || cid_match
    }

    /// The place of some order that `request` asks to cancel; `OrderNotFound`,
    /// carrying the ids of the request, exactly when no order matches.
    pub fn find_matching_order(orders: &Vec<Order<Open>>, request: &Order<RequestCancel>) -> (r: Result<
        usize,
        ExchangeError,
    >)
        ensures
            match r {
                Ok(i) => i < orders@.len() && order_ids_match(orders@[i as int], *request),
                Err(e) => none_match(orders@, *request) && e == (ExchangeError::OrderNotFound {
                    client_order_id: request.cid,
                    order_id: request.state.id,
                }),
            },
    {
        match position_any_match(orders, request) {
            Some(i) => Ok(i),
            None => Err(
                ExchangeError::OrderNotFound {
                    client_order_id: clone_cid(&request.cid),
                    order_id: request.state.id,
                },
            ),
        }
    }

    /// The balance of the reserved token after `order` was cancelled; see
    /// [`release_balance`]. A missing entry is created at the exchange's time.
    pub open spec fn release_outcome(&self, order: Order<Open>) -> Option<Balance> {
        release_balance(self.balances@, order, self.exchange_timestamp)
    }

    /// Gives back to the available balance what the cancelled order had
    /// reserved and returns the event that reports the new balance. When the
    /// amount is not representable nothing changes and `InternalError` is returned.
    pub fn apply_cancel_order_changes(&mut self, cancelled: &Order<Open>) -> (r: Result<AccountEvent, ExchangeError>)
        ensures
            match old(self).release_outcome(*cancelled) {
                None => r is Err && is_out_of_range(r->Err_0) && *final(self) == *old(self),
                Some(balance) => {
                    &&& r is Ok
                    &&& r->Ok_0@ == sandbox_event(
                        old(self).exchange_timestamp,
                        EventKindView::Balance(
                            TokenBalance { token: reserve_token(cancelled.instrument, cancelled.side), balance },
                        ),
                    )
                    &&& final(self).balances@ == old(self).balances@.insert(
                        reserve_token(cancelled.instrument, cancelled.side)@,
                        balance,
                    )
                    &&& same_holdings(*old(self), *final(self))
                    &&& final(self).orders == old(self).orders
                    &&& final(self).events == old(self).events
                },
            },
    {
        let exchange_timestamp = self.exchange_timestamp;
        match self.balances.update_from_cancel(cancelled, exchange_timestamp) {
            Ok(token_balance) => Ok(
                AccountEvent {
                    exchange_timestamp,
                    exchange: Exchange::SandBox,
                    kind: AccountEventKind::Balance(token_balance),
                },
            ),
            Err(e) => Err(e),
        }
    }

    /// `after` and `result` follow from cancelling the order at place `at` of
    /// `side` in the book of `key`: the order leaves the book, what it had
    /// reserved is available again, and the client is told first of the
    /// cancelled order, then of the balance. When the balance is not
    /// representable nothing changes and the reply is an `InternalError`.
    pub open spec fn cancelled_at(
        &self,
        key: InstrumentKey,
        side: Side,
        at: int,
        after: Account,
        result: Result<Order<Cancelled>, ExchangeError>,
    ) -> bool {
        let order = self.orders.book(key).side(side)[at];
        let token = reserve_token(order.instrument, order.side);
        match self.release_outcome(order) {
            None => result is Err && is_out_of_range(result->Err_0) && after == *self,
            Some(balance) => {
                &&& result == Ok::<Order<Cancelled>, ExchangeError>(order.as_cancelled())
                &&& same_holdings(*self, after)
                &&& after.balances@ == self.balances@.insert(token@, balance)
                &&& book_lost(self.orders, after.orders, key, side, at)
                &&& after.event_views() == self.event_views().push(
                    sandbox_event(
                        self.exchange_timestamp,
                        EventKindView::OrdersCancelled(seq![order.as_cancelled()]),
                    ),
                ).push(
                    sandbox_event(self.exchange_timestamp, EventKindView::Balance(TokenBalance { token, balance })),
                )
            },
        }
    }

    /// Handles one request to cancel an order: validates it, finds a matching
    /// order on the request's side of the instrument's book, takes it off the
    /// book, releases its reservation and tells the client. A refused request
    /// changes nothing.
    pub fn atomic_cancel(&mut self, request: Order<RequestCancel>) -> (r: Result<Order<Cancelled>, ExchangeError>)
        requires
            old(self).wf(),
        ensures
            final(self).wf(),
            cancel_step(*old(self), request, *final(self), r),
    {
        match Account::validate_order_request_cancel(&request) {
            Err(e) => {
                return Err(e);
            },
            Ok(()) => {},
        }
        let slot = match self.orders.position_of(&request.instrument) {
            Some(slot) => slot,
            None => {
                return Err(ExchangeError::InvalidInstrument);
            },
        };
        let found = match request.side {
            Side::Buy => Account::find_matching_order(&self.orders.books[slot].orders.bids, &request),
            Side::Sell => Account::find_matching_order(&self.orders.books[slot].orders.asks, &request),
        };
        let index = match found {
            Ok(index) => index,
            Err(e) => {
                return Err(e);
            },
        };
        let resting = match request.side {
            Side::Buy => self.orders.books[slot].orders.bids[index].clone(),
            Side::Sell => self.orders.books[slot].orders.asks[index].clone(),
        };
        let ghost before = *self;
        let ghost key = request.instrument@;
        let balance_event = match self.apply_cancel_order_changes(&resting) {
            Ok(event) => event,
            Err(e) => {
                assert(before.cancelled_at(key, request.side, index as int, *self, Err(e)));
                return Err(e);
            },
        };
        let removed_order = self.orders.books[slot].orders.remove_order(request.side, index);
        let cancelled_order = removed_order.into_cancelled();
        let exchange_timestamp = self.exchange_timestamp;
        let mut cancelled_orders: Vec<Order<Cancelled>> = Vec::new();
        cancelled_orders.push(cancelled_order.clone());
        self.send_account_event(
            AccountEvent {
                exchange_timestamp,
                exchange: Exchange::SandBox,
                kind: AccountEventKind::OrdersCancelled(cancelled_orders),
            },
        );
        self.send_account_event(balance_event);
        proof {
            assert forall|i: int, j: int| 0 <= i < j < self.orders.books@.len() implies (
            #[trigger] self.orders.books@[i]).instrument@ != (#[trigger] self.orders.books@[j]).instrument@ by {
                assert(self.orders.books@[i].instrument == before.orders.books@[i].instrument);
            }
            assert(before.cancelled_at(key, request.side, index as int, *self, Ok(cancelled_order)));
        }
        Ok(cancelled_order)
    }

    /// Handles a batch of requests to cancel orders, one after the other, and
    /// returns one reply for each. A refused request does not stop the batch.
    pub fn cancel_orders(&mut self, cancel_requests: Vec<Order<RequestCancel>>) -> (r: Vec<
        Result<Order<Cancelled>, ExchangeError>,
    >)
        requires
            old(self).wf(),
        ensures
            final(self).wf(),
            exists|states: Seq<Account>| #[trigger]
                cancel_trace(states, cancel_requests@, r@) && states[0] == *old(self) && states.last() == *final(self),
    {
        let mut cancel_results: Vec<Result<Order<Cancelled>, ExchangeError>> = Vec::new();
        let ghost mut states: Seq<Account> = seq![*self];
        let mut i: usize = 0;
        while i < cancel_requests.len()
            invariant
                i <= cancel_requests@.len(),
                self.wf(),
                cancel_trace(states, cancel_requests@.take(i as int), cancel_results@),
                states[0] == *old(self),
                states.last() == *self,
            decreases cancel_requests@.len() - i,
        {
            let request = cancel_requests[i].clone();
            let result = self.atomic_cancel(request);
            proof {
                let next = states.push(*self);
                let handled = cancel_requests@.take(i + 1);
                let replies = cancel_results@.push(result);
                assert forall|k: int| 0 <= k < handled.len() implies cancel_step(
                    next[k],
                    #[trigger] handled[k],
                    next[k + 1],
                    replies[k],
                ) by {
                    if k < i {
                        assert(cancel_requests@.take(i as int)[k] == handled[k]);
                    }
                }
                states = next;
            }
            cancel_results.push(result);
            i += 1;
        }
        assert(cancel_requests@.take(i as int) =~= cancel_requests@);
        cancel_results
    }
}

/// `after` differs from `before` at most in the perpetual positions, held and closed.
pub open spec fn same_but_perpetuals(before: Account, after: Account) -> bool {
    &&& after.current_session == before.current_session
    &&& after.machine_id == before.machine_id
    &&& after.exchange_timestamp == before.exchange_timestamp
    &&& after.config == before.config
    &&& after.orders == before.orders
    &&& after.balances == before.balances
    &&& after.events == before.events
    &&& after.positions.margin_pos == before.positions.margin_pos
    &&& after.positions.futures_pos == before.positions.futures_pos
    &&& after.positions.option_pos == before.positions.option_pos
}

/// `after` and `r` follow from `before` when the positions were to become
/// `outcome`: they did, and nothing else changed; or, without an outcome,
/// nothing changed at all and `r` is an `InternalError`.
pub open spec fn positions_moved(
    before: Account,
    after: Account,
    outcome: Option<Holdings>,
    r: Result<(), ExchangeError>,
) -> bool {
    match outcome {
        Some(holdings) => r is Ok && after.holdings() == holdings && same_but_perpetuals(before, after),
        None => r is Err && is_out_of_range(r->Err_0) && after == before,
    }
}

impl Account {
    /// The perpetual positions of the account, held and closed.
    pub open spec fn holdings(&self) -> Holdings {
        Holdings {
            long: self.positions.perpetual_pos_long@,
            short: self.positions.perpetual_pos_short@,
            closed_long: self.closed_positions.perpetual_pos_long@,
            closed_short: self.closed_positions.perpetual_pos_short@,
        }
    }

    /// The position that `trade` opens with `size` units under the account's
    /// configuration: no margin set aside and no liquidation price yet.
    pub fn create_perpetual_position(&self, trade: &ClientTrade, size: i64) -> (r: PerpetualPosition)
        ensures
            r == opened_position(self.config, *trade, size),
    {
        PerpetualPosition {
            meta: PositionMeta::create_from_trade_with_remaining(trade, size),
            pos_config: PerpetualPositionConfig {
                pos_margin_mode: self.config.position_margin_mode,
                leverage: self.config.account_leverage_rate,
                position_mode: self.config.position_direction_mode,
            },
            liquidation_price: 0,
            margin: 0,
        }
    }

    /// Refuses a position whose leverage is above what the account allows.
    pub fn enforce_leverage_limits(&self, new_position: &PerpetualPosition) -> (r: Result<(), ExchangeError>)
        ensures
            new_position.pos_config.leverage > self.config.account_leverage_rate ==> r == Err::<(), ExchangeError>(
                ExchangeError::InvalidLeverage,
            ),
            new_position.pos_config.leverage <= self.config.account_leverage_rate ==> r is Ok,
    {
        if new_position.pos_config.leverage > self.config.account_leverage_rate {
            Err(ExchangeError::InvalidLeverage)
        } else {
            Ok(())
        }
    }

    /// Books a trade with long and short positions apart; see [`long_short_update`].
    /// `UnsupportedInstrumentKind`, changing nothing, for a trade in an
    /// instrument that is not a perpetual.
    ///
    /// The positions stay well formed. The account as a whole stays consistent
    /// when it is configured for the long-short mode; under the net mode this
    /// rule can open a position beside one on the other side.
    pub fn update_position_long_short_mode(&mut self, trade: ClientTrade) -> (r: Result<(), ExchangeError>)
        requires
            old(self).wf(),
        ensures
            final(self).positions.wf(),
            old(self).config.position_direction_mode == PositionDirectionMode::LongShort ==> final(self).wf(),
            trade.instrument.kind != InstrumentKind::Perpetual ==> r == Err::<(), ExchangeError>(
                ExchangeError::UnsupportedInstrumentKind,
            ) && *final(self) == *old(self),
            trade.instrument.kind == InstrumentKind::Perpetual ==> positions_moved(
                *old(self),
                *final(self),
                long_short_update(old(self).holdings(), old(self).config, trade),
                r,
            ),
    {
        if trade.instrument.kind != InstrumentKind::Perpetual {
            return Err(ExchangeError::UnsupportedInstrumentKind);
        }
        if trade.size < 0 {
            return Err(out_of_range());
        }
        let ghost before = *self;
        proof {
            if long_short_update(before.holdings(), before.config, trade) is Some {
                lemma_long_short_update_wf(before.holdings(), before.config, trade);
            }
        }
        match self.positions.get_perpetual(trade.side, &trade.instrument) {
            Some(position) => {
                let mut updated = position;
                match updated.meta.update_from_trade(&trade) {
                    Err(e) => {
                        return Err(e);
                    },
                    Ok(()) => {},
                }
                self.positions.upsert_perpetual(updated);
            },
            None => {
                let new_position = self.create_perpetual_position(&trade, trade.size);
                self.positions.upsert_perpetual(new_position);
            },
        }
        proof {
            let next = long_short_update(before.holdings(), before.config, trade)->Some_0;
            assert(self.holdings() == next);
        }
        Ok(())
    }
}

impl Account {
    /// Books a trade with each instrument held on one side only; see [`net_update`].
    /// `UnsupportedInstrumentKind`, changing nothing, for a trade in an
    /// instrument that is not a perpetual.
    pub fn update_position_net_mode(&mut self, trade: ClientTrade) -> (r: Result<(), ExchangeError>)
        requires
            old(self).wf(),
        ensures
            final(self).wf(),
            trade.instrument.kind != InstrumentKind::Perpetual ==> r == Err::<(), ExchangeError>(
                ExchangeError::UnsupportedInstrumentKind,
            ) && *final(self) == *old(self),
            trade.instrument.kind == InstrumentKind::Perpetual ==> positions_moved(
                *old(self),
                *final(self),
                net_update(old(self).holdings(), old(self).config, trade),
                r,
            ),
    {
        if trade.instrument.kind != InstrumentKind::Perpetual {
            return Err(ExchangeError::UnsupportedInstrumentKind);
        }
        if trade.size < 0 {
            return Err(out_of_range());
        }
        let ghost before = *self;
        let ghost outcome = net_update(before.holdings(), before.config, trade);
        proof {
            if outcome is Some {
                lemma_net_update_wf(before.holdings(), before.config, trade);
                if before.config.position_direction_mode == PositionDirectionMode::Net {
                    assert(before.holdings().one_sided()) by {
                        assert forall|k: InstrumentKey| !(#[trigger] holds_key(before.holdings().long, k)
                            && #[trigger] holds_key(before.holdings().short, k)) by {
                            assert(!(before.positions.has_long(k) && before.positions.has_short(k)));
                        }
                    }
                    lemma_net_update_one_sided(before.holdings(), before.config, trade);
                }
            }
        }
        let side = trade.side;
        let other = trade.side.opposite();
        match self.positions.get_perpetual(side, &trade.instrument) {
            Some(position) => {
                let mut updated = position;
                match updated.meta.update_from_trade(&trade) {
                    Err(e) => {
                        return Err(e);
                    },
                    Ok(()) => {},
                }
                self.positions.upsert_perpetual(updated);
            },
            None => match self.positions.get_perpetual(other, &trade.instrument) {
                Some(position) => {
                    let size = position.meta.current_size;
                    assert(position.meta.side == other && size >= 0) by {
                        let list = before.positions.perpetuals(other);
                        let p = place_of(list, trade.instrument@);
                        assert(list[p].meta.side == other);
                    }
                    if trade.size < size {
                        let mut reduced = position;
                        reduced.meta.current_size = size - trade.size;
                        self.positions.upsert_perpetual(reduced);
                    } else {
                        let mut closed = position;
                        match closed.meta.update_realised_pnl(trade.price) {
                            Err(e) => {
                                return Err(e);
                            },
                            Ok(()) => {},
                        }
                        let _ = self.positions.remove_perpetual(other, &trade.instrument);
                        self.closed_positions.archive(closed);
                        if trade.size > size {
                            let new_position = self.create_perpetual_position(&trade, trade.size - size);
                            self.positions.upsert_perpetual(new_position);
                        }
                    }
                },
                None => {
                    let new_position = self.create_perpetual_position(&trade, trade.size);
                    self.positions.upsert_perpetual(new_position);
                },
            },
        }
        proof {
            if before.config.position_direction_mode == PositionDirectionMode::Net {
                assert forall|k: InstrumentKey| !(#[trigger] self.positions.has_long(k)
                    && #[trigger] self.positions.has_short(k)) by {
                    assert(!(holds_key(outcome->Some_0.long, k) && holds_key(outcome->Some_0.short, k)));
                }
            }
        }
        Ok(())
    }

    /// Books a trade into the positions under the configured direction mode.
    /// `UnsupportedInstrumentKind`, changing nothing, for a trade in an
    /// instrument that is not a perpetual.
    pub fn update_position_from_client_trade(&mut self, trade: ClientTrade) -> (r: Result<(), ExchangeError>)
        requires
            old(self).wf(),
        ensures
            final(self).wf(),
            trade.instrument.kind != InstrumentKind::Perpetual ==> r == Err::<(), ExchangeError>(
                ExchangeError::UnsupportedInstrumentKind,
            ) && *final(self) == *old(self),
            trade.instrument.kind == InstrumentKind::Perpetual ==> positions_moved(
                *old(self),
                *final(self),
                position_update(old(self).holdings(), old(self).config, trade),
                r,
            ),
    {
        match trade.instrument.kind {
            InstrumentKind::Perpetual => match self.config.position_direction_mode {
                PositionDirectionMode::Net => self.update_position_net_mode(trade),
                PositionDirectionMode::LongShort => self.update_position_long_short_mode(trade),
            },
            _ => Err(ExchangeError::UnsupportedInstrumentKind),
        }
    }
}

/// `after` differs from `before` at most in the balances.
pub open spec fn same_but_balances(before: Account, after: Account) -> bool {
    &&& same_holdings(before, after)
    &&& after.orders == before.orders
    &&& after.events == before.events
}

impl Account {
    /// Adds `delta` to the balance of `token` and returns the new balance; a
    /// token without a balance starts from a fresh one, created at the
    /// exchange's time. When a sum is not representable nothing changes and
    /// `InternalError` is returned.
    pub fn apply_balance_delta(&mut self, token: &Token, delta: BalanceDelta) -> (r: Result<Balance, ExchangeError>)
        ensures
            updated_by(
                old(self).balances@,
                final(self).balances@,
                token@,
                delta,
                old(self).exchange_timestamp,
                r,
            ),
            r is Err ==> *final(self) == *old(self),
            same_but_balances(*old(self), *final(self)),
    {
        let exchange_timestamp = self.exchange_timestamp;
        self.balances.update_at(token, delta, exchange_timestamp)
    }

    /// The balance of the reserved token after `required_balance` was taken
    /// from its available amount; see [`reserve_balance`]. A missing entry is
    /// created at the exchange's time.
    pub open spec fn reservation_outcome(&self, open: Order<Open>, required_balance: i64) -> Option<Balance> {
        reserve_balance(self.balances@, open, required_balance, self.exchange_timestamp)
    }

    /// Takes `required_balance` from the available balance of the token that
    /// `open` reserves and returns the event that reports the new balance.
    ///
    /// `UnsupportedInstrumentKind` for a kind of instrument that has no
    /// margin; `NotImplemented` under cross margin; `InternalError` when the
    /// new balance is not representable. A failure changes nothing.
    pub fn apply_open_order_changes(&mut self, open: &Order<Open>, required_balance: i64) -> (r: Result<
        AccountEvent,
        ExchangeError,
    >)
        ensures
            same_but_balances(*old(self), *final(self)),
            r is Err ==> *final(self) == *old(self),
            !settles(open.instrument.kind) ==> r is Err && r->Err_0 == ExchangeError::UnsupportedInstrumentKind,
            settles(open.instrument.kind) && old(self).config.position_margin_mode == PositionMarginMode::Cross ==> r
                is Err && (r->Err_0 matches ExchangeError::NotImplemented(feature) && feature@
                == "cross margin"@),
            settles(open.instrument.kind) && old(self).config.position_margin_mode == PositionMarginMode::Isolated
                ==> match old(self).reservation_outcome(*open, required_balance) {
                None => r is Err && is_out_of_range(r->Err_0),
                Some(balance) => r is Ok && r->Ok_0@ == sandbox_event(
                    old(self).exchange_timestamp,
                    EventKindView::Balance(TokenBalance { token: reserve_token(open.instrument, open.side), balance }),
                ) && final(self).balances@ == old(self).balances@.insert(
                    reserve_token(open.instrument, open.side)@,
                    balance,
                ),
            },
    {
        let exchange_timestamp = self.exchange_timestamp;
        let margin_mode = self.config.position_margin_mode;
        self.balances.update_from_open(open, required_balance, margin_mode, exchange_timestamp)
    }

    /// Settles a trade in the balances of its base and quote tokens and
    /// returns the event that reports the two new balances; see [`settlement`].
    ///
    /// `UnsupportedInstrumentKind` for a kind of instrument whose trades move
    /// no balances, `InternalError` when a value is not representable. A
    /// failure changes nothing.
    pub fn apply_trade_changes(&mut self, trade: &ClientTrade) -> (r: Result<AccountEvent, ExchangeError>)
        ensures
            same_but_balances(*old(self), *final(self)),
            r is Err ==> *final(self) == *old(self),
            !settles(trade.instrument.kind) ==> r is Err && r->Err_0 == ExchangeError::UnsupportedInstrumentKind,
            settles(trade.instrument.kind) ==> match settlement(
                old(self).balances@,
                *trade,
                old(self).exchange_timestamp,
            ) {
                None => r is Err && is_out_of_range(r->Err_0),
                Some(settled) => r is Ok && r->Ok_0@ == settlement_event(
                    old(self).exchange_timestamp,
                    *trade,
                    settled,
                ) && final(self).balances@ == settled.entries,
            },
    {
        let exchange_timestamp = self.exchange_timestamp;
        self.balances.update_from_trade(trade, exchange_timestamp)
    }
}

/// What one trade of the client does to the account.
///
/// A trade that cannot be settled, for the kind of its instrument or for a
/// value that is not representable, changes nothing. Any other trade is
/// settled in the balances, booked into the positions where they can take it,
/// and reported: first the trade, then the two balances.
pub open spec fn trade_step(before: Account, trade: ClientTrade, after: Account) -> bool {
    let settled = settlement(before.balances@, trade, before.exchange_timestamp);
    if !settles(trade.instrument.kind) || settled is None {
        after == before
    } else {
        let booked = position_update(before.holdings(), before.config, trade);
        &&& after.current_session == before.current_session
        &&& after.machine_id == before.machine_id
        &&& after.exchange_timestamp == before.exchange_timestamp
        &&& after.config == before.config
        &&& after.orders == before.orders
        &&& after.positions.margin_pos == before.positions.margin_pos
        &&& after.positions.futures_pos == before.positions.futures_pos
        &&& after.positions.option_pos == before.positions.option_pos
        &&& after.balances@ == settled->Some_0.entries
        &&& after.holdings() == (if trade.instrument.kind == InstrumentKind::Perpetual && booked is Some {
            booked->Some_0
        } else {
            before.holdings()
        })
        &&& after.event_views() == before.event_views().push(
            sandbox_event(before.exchange_timestamp, EventKindView::Trade(trade)),
        ).push(settlement_event(before.exchange_timestamp, trade, settled->Some_0))
    }
}

/// The trades were handled one after the other: `states` are the accounts
/// before, between and after them.
pub open spec fn trade_trace(states: Seq<Account>, trades: Seq<ClientTrade>) -> bool {
    &&& states.len() == trades.len() + 1
    &&& forall|i: int| 0 <= i < trades.len() ==> trade_step(states[i], #[trigger] trades[i], states[i + 1])
}

/// `after` is `before` with `left` as the given side of the book of `key`,
/// and nothing else changed.
pub open spec fn book_matched(
    before: Account,
    after: Account,
    key: InstrumentKey,
    side: Side,
    left: Seq<Order<Open>>,
) -> bool {
    let i = before.orders.slot(key);
    &&& same_holdings(before, after)
    &&& after.balances == before.balances
    &&& after.events == before.events
    &&& after.orders.latency == before.orders.latency
    &&& after.orders.books@.len() == before.orders.books@.len()
    &&& forall|j: int|
        0 <= j < before.orders.books@.len() && j != i ==> after.orders.books@[j] == before.orders.books@[j]
    &&& after.orders.books@[i].instrument == before.orders.books@[i].instrument
    &&& after.orders.books@[i].orders.batch_id == before.orders.books@[i].orders.batch_id
    &&& after.orders.books@[i].orders.side(side) == left
    &&& after.orders.books@[i].orders.side(side.spec_opposite()) == before.orders.books@[i].orders.side(
        side.spec_opposite(),
    )
}

/// What a market trade does to the account: `after` and `r` follow from
/// `before` and `market_trade`.
///
/// A trade whose symbol names no instrument is refused with
/// `InvalidInstrument`. A trade for an instrument without a book, or one that
/// finds no order on the side it is matched against, gives no client trade and
/// changes nothing. Otherwise the fee rate is that of the role of the
/// best-priced order on that side, `UnsupportedInstrumentKind` is returned when
/// the configuration has no rates for the kind, and else the side is matched
/// and the client trades are handled one after the other.
pub open spec fn matched(
    before: Account,
    market_trade: MarketTrade,
    after: Account,
    r: Result<Vec<ClientTrade>, ExchangeError>,
) -> bool {
    match instrument_named(market_trade.symbol@) {
        None => r is Err && r->Err_0 == ExchangeError::InvalidInstrument && after == before,
        Some(key) => if !before.orders.has_book(key) {
            r is Ok && r->Ok_0@.len() == 0 && after == before
        } else {
            let book = before.orders.book(key);
            match matching_side(book.bids@, book.asks@, side_named(market_trade.side@)) {
                None => r is Ok && r->Ok_0@.len() == 0 && after == before,
                Some(side) => {
                    let role = book.side(side)[best_index(book.side(side), side)].state.order_role;
                    match before.config.rates(key.2) {
                        None => r is Err && r->Err_0 == ExchangeError::UnsupportedInstrumentKind && after == before,
                        Some(rates) => {
                            let outcome = match_side(
                                book.side(side),
                                side,
                                market_trade.amount as int,
                                market_trade.price,
                                rates.rate(role),
                                market_trade.timestamp,
                            );
                            &&& r is Ok
                            &&& r->Ok_0@ == outcome.1
                            &&& exists|states: Seq<Account>| #[trigger]
                                trade_trace(states, outcome.1) && states.last() == after && book_matched(
                                    before,
                                    states[0],
                                    key,
                                    side,
                                    outcome.0,
                                )
                        },
                    }
                },
            }
        },
    }
}

/// `after` is `before` with the exchange's time set for a market trade
/// stamped `timestamp`: to that timestamp in a backtest, to the wall clock,
/// which is not negative, when online.
pub open spec fn clock_set(before: Account, timestamp: i64, after: Account) -> bool {
    &&& after == (Account { exchange_timestamp: after.exchange_timestamp, ..before })
    &&& before.config.execution_mode == SandboxMode::Backtest ==> after.exchange_timestamp == timestamp
    &&& before.config.execution_mode == SandboxMode::Online ==> after.exchange_timestamp >= 0
}

impl Account {
    /// The rate that an order of role `role` pays on an instrument of kind
    /// `instrument_kind`; `UnsupportedInstrumentKind` when the configuration
    /// has no rates for the kind.
    pub fn fees_percent(&self, instrument_kind: InstrumentKind, role: OrderRole) -> (r: Result<
        i64,
        ExchangeError,
    >)
        ensures
            match self.config.rates(instrument_kind) {
                Some(rates) => r == Ok::<i64, ExchangeError>(rates.rate(role)),
                None => r == Err::<i64, ExchangeError>(ExchangeError::UnsupportedInstrumentKind),
            },
    {
        self.config.fees_percent(instrument_kind, role)
    }

    /// Sets the exchange's time for a market trade stamped `timestamp`.
    pub fn update_exchange_ts(&mut self, timestamp: i64)
        ensures
            clock_set(*old(self), timestamp, *final(self)),
    {
        let adjusted_timestamp = match self.config.execution_mode {
            SandboxMode::Backtest => timestamp,
            SandboxMode::Online => wall_clock_millis(),
        };
        self.exchange_timestamp = adjusted_timestamp;
    }

    /// Handles the client's trades one after the other: each is settled in
    /// the balances, booked into the positions and reported to the client.
    pub fn process_trades(&mut self, client_trades: &Vec<ClientTrade>)
        requires
            old(self).wf(),
        ensures
            final(self).wf(),
            exists|states: Seq<Account>| #[trigger]
                trade_trace(states, client_trades@) && states[0] == *old(self) && states.last() == *final(self),
    {
        let ghost mut states: Seq<Account> = seq![*self];
        let mut i: usize = 0;
        while i < client_trades.len()
            invariant
                i <= client_trades@.len(),
                self.wf(),
                trade_trace(states, client_trades@.take(i as int)),
                states[0] == *old(self),
                states.last() == *self,
            decreases client_trades@.len() - i,
        {
            let trade = client_trades[i].clone();
            let ghost before = *self;
            match self.apply_trade_changes(&trade) {
                Err(_) => {},
                Ok(balance_event) => {
                    let ghost settled = *self;
                    assert(settled.wf());
                    let _ = self.update_position_from_client_trade(trade.clone());
                    let exchange_timestamp = self.exchange_timestamp;
                    self.send_account_event(
                        AccountEvent {
                            exchange_timestamp,
                            exchange: Exchange::SandBox,
                            kind: AccountEventKind::Trade(trade),
                        },
                    );
                    self.send_account_event(balance_event);
                },
            }
            proof {
                let next = states.push(*self);
                let handled = client_trades@.take(i + 1);
                assert forall|k: int| 0 <= k < handled.len() implies trade_step(
                    next[k],
                    #[trigger] handled[k],
                    next[k + 1],
                ) by {
                    if k < i {
                        assert(client_trades@.take(i as int)[k] == handled[k]);
                    }
                }
                states = next;
            }
            i += 1;
        }
        assert(client_trades@.take(i as int) =~= client_trades@);
    }

    /// Matches a market trade against the resting orders of its instrument and
    /// handles the client trades that result; see [`matched`].
    pub fn match_orders(&mut self, market_trade: &MarketTrade) -> (r: Result<Vec<ClientTrade>, ExchangeError>)
        requires
            old(self).wf(),
        ensures
            final(self).wf(),
            matched(*old(self), *market_trade, *final(self), r),
    {
        let instrument = match market_trade.parse_instrument() {
            Some(instrument) => instrument,
            None => {
                return Err(ExchangeError::InvalidInstrument);
            },
        };
        let ghost key = instrument@;
        let slot = match self.orders.position_of(&instrument) {
            Some(slot) => slot,
            None => {
                return Ok(Vec::new());
            },
        };
        let matching_side = match self.orders.books[slot].orders.determine_matching_side(market_trade) {
            Some(side) => side,
            None => {
                return Ok(Vec::new());
            },
        };
        let order_role = match self.orders.books[slot].orders.best_role(matching_side) {
            Some(role) => role,
            None => {
                return Ok(Vec::new());
            },
        };
        let fees_percent = match self.fees_percent(instrument.kind, order_role) {
            Ok(rate) => rate,
            Err(e) => {
                return Err(e);
            },
        };
        proof {
            lemma_rates_of_in_range(self.config.fees_book@, instrument.kind);
        }
        let ghost before = *self;
        let trades = match_market_trade(
            &mut self.orders.books[slot].orders,
            market_trade,
            matching_side,
            fees_percent,
        );
        let ghost mid = *self;
        proof {
            assert forall|i: int, j: int| 0 <= i < j < mid.orders.books@.len() implies (
            #[trigger] mid.orders.books@[i]).instrument@ != (#[trigger] mid.orders.books@[j]).instrument@ by {
                assert(mid.orders.books@[i].instrument == before.orders.books@[i].instrument);
            }
        }
        self.process_trades(&trades);
        proof {
            let book = before.orders.book(key);
            let outcome = match_side(
                book.side(matching_side),
                matching_side,
                market_trade.amount as int,
                market_trade.price,
                fees_percent,
                market_trade.timestamp,
            );
            assert(trades@ == outcome.1);
        }
        Ok(trades)
    }

    /// Takes in a market trade: sets the exchange's time by it, then matches
    /// it against the resting orders as [`Self::match_orders`] does.
    pub fn handle_trade_data(&mut self, trade: MarketTrade) -> (r: Result<(), ExchangeError>)
        requires
            old(self).wf(),
        ensures
            final(self).wf(),
            exists|mid: Account, trades: Result<Vec<ClientTrade>, ExchangeError>|
                {
                    &&& clock_set(*old(self), trade.timestamp, mid)
                    &&& #[trigger] matched(mid, trade, *final(self), trades)
                    &&& r is Ok <==> trades is Ok
                    &&& r is Err ==> r->Err_0 == trades->Err_0
                },
    {
        self.update_exchange_ts(trade.timestamp);
        let ghost mid = *self;
        let trades = self.match_orders(&trade);
        match trades {
            Ok(_) => {
                assert(matched(mid, trade, *self, trades));
                Ok(())
            },
            Err(e) => {
                Err(e)
            },
        }
    }
}

/// The request that cancels `order` by its order id, stamped `timestamp`.
pub open spec fn cancel_request_for(order: Order<Open>, timestamp: i64) -> Order<RequestCancel> {
    Order {
        instruction: order.instruction,
        exchange: Exchange::SandBox,
        instrument: order.instrument,
        timestamp,
        cid: order.cid,
        side: order.side,
        state: RequestCancel { id: Some(order.state.id) },
    }
}

/// The requests that cancel each of `orders` by its order id, in order.
pub open spec fn cancel_requests_for(orders: Seq<Order<Open>>, timestamp: i64) -> Seq<Order<RequestCancel>> {
    orders.map_values(|order: Order<Open>| cancel_request_for(order, timestamp))
}

/// The balances after the first `n` of the deposits, the entries that a
/// deposit creates being created at `created_at`; with the balances to report
/// and whether every deposit so far was representable. The deposits stop at
/// the first that is not.
pub open spec fn deposits_made(
    entries: Map<Seq<char>, Balance>,
    deposits: Seq<(Token, i64)>,
    n: int,
    created_at: i64,
) -> (Map<Seq<char>, Balance>, Seq<TokenBalance>, bool)
    decreases n,
{
    if n <= 0 {
        (entries, Seq::empty(), true)
    } else {
        let so_far = deposits_made(entries, deposits, n - 1, created_at);
        let token = deposits[n - 1].0;
        let amount = deposits[n - 1].1;
        let start = entry_or_fresh(so_far.0, token@, created_at);
        let delta = BalanceDelta { total: amount, available: amount };
        if so_far.2 && start.accepts(delta) {
            (
                so_far.0.insert(token@, start.plus(delta)),
                so_far.1.push(TokenBalance { token, balance: start.plus(delta) }),
                true,
            )
        } else {
            (so_far.0, so_far.1, false)
        }
    }
}

/// The balances after the first `n` of the tokens were given a fresh entry,
/// created at `created_at`, where they had none.
pub open spec fn tokens_initialized(
    entries: Map<Seq<char>, Balance>,
    tokens: Seq<String>,
    n: int,
    created_at: i64,
) -> Map<Seq<char>, Balance>
    decreases n,
{
    if n <= 0 {
        entries
    } else {
        let so_far = tokens_initialized(entries, tokens, n - 1, created_at);
        if so_far.contains_key(tokens[n - 1]@) {
            so_far
        } else {
            so_far.insert(tokens[n - 1]@, Balance::fresh(created_at))
        }
    }
}

/// Why a purchase of bitcoin with tether is refused.
pub enum TopupRefusal {
    /// The account has no balance of the token.
    UnknownToken(Seq<char>),
    /// The available tether does not cover the amount.
    Insufficient,
    /// The price is zero or a value is not representable.
    OutOfRange,
}

/// What a purchase of bitcoin for `usdt_amount` of tether at `btc_price` does
/// to the balances: the tether leaves total and available, and the amount
/// divided by the price arrives as bitcoin.
pub open spec fn topup(entries: Map<Seq<char>, Balance>, usdt_amount: i64, btc_price: i64) -> Result<
    (Balance, Balance),
    TopupRefusal,
> {
    let paid = BalanceDelta { total: (-usdt_amount) as i64, available: (-usdt_amount) as i64 };
    let bought = BalanceDelta {
        total: scaled_div(usdt_amount as int, btc_price as int) as i64,
        available: scaled_div(usdt_amount as int, btc_price as int) as i64,
    };
    if !entries.contains_key("USDT"@) {
        Err(TopupRefusal::UnknownToken("USDT"@))
    } else if entries["USDT"@].available < usdt_amount {
        Err(TopupRefusal::Insufficient)
    } else if !entries.contains_key("BTC"@) {
        Err(TopupRefusal::UnknownToken("BTC"@))
    } else if btc_price == 0 || !fits_i64(scaled_div(usdt_amount as int, btc_price as int)) || !fits_i64(
        -usdt_amount,
    ) || !entries["USDT"@].accepts(paid) || !entries["BTC"@].accepts(bought) {
        Err(TopupRefusal::OutOfRange)
    } else {
        Ok((entries["USDT"@].plus(paid), entries["BTC"@].plus(bought)))
    }
}

impl Account {
    /// A copy of every resting order of the account, book by book, bids before asks.
    pub fn fetch_orders_open(&self) -> (r: Vec<Order<Open>>)
        ensures
            r@ == resting_orders(self.orders.books@, self.orders.books@.len() as int),
    {
        self.orders.fetch_all()
    }

    /// Cancels every resting order of the account, book by book and bids
    /// before asks, each by its order id, and returns the cancelled orders.
    /// The first refusal, if there is one, is returned in their place; the
    /// orders cancelled before and after it stay cancelled.
    pub fn cancel_orders_all(&mut self) -> (r: Result<Vec<Order<Cancelled>>, ExchangeError>)
        requires
            old(self).wf(),
        ensures
            final(self).wf(),
            exists|states: Seq<Account>, results: Seq<Result<Order<Cancelled>, ExchangeError>>|
                {
                    &&& #[trigger] cancel_trace(
                        states,
                        cancel_requests_for(
                            resting_orders(old(self).orders.books@, old(self).orders.books@.len() as int),
                            old(self).exchange_timestamp,
                        ),
                        results,
                    )
                    &&& states[0] == *old(self)
                    &&& states.last() == *final(self)
                    &&& match r {
                        Ok(cancelled) => cancelled@.len() == results.len() && forall|i: int|
                            0 <= i < results.len() ==> #[trigger] results[i] == Ok::<
                                Order<Cancelled>,
                                ExchangeError,
                            >(cancelled@[i]),
                        Err(e) => exists|i: int|
                            0 <= i < results.len() && #[trigger] results[i] == Err::<
                                Order<Cancelled>,
                                ExchangeError,
                            >(e) && forall|j: int| 0 <= j < i ==> (#[trigger] results[j]) is Ok,
                    }
                },
    {
        let orders_to_cancel = self.orders.fetch_all();
        let exchange_timestamp = self.exchange_timestamp;
        let ghost wanted = cancel_requests_for(orders_to_cancel@, exchange_timestamp);
        let mut cancel_requests: Vec<Order<RequestCancel>> = Vec::new();
        let mut i: usize = 0;
        while i < orders_to_cancel.len()
            invariant
                i <= orders_to_cancel@.len(),
                cancel_requests@ == wanted.take(i as int),
                wanted == cancel_requests_for(orders_to_cancel@, exchange_timestamp),
            decreases orders_to_cancel@.len() - i,
        {
            let order = orders_to_cancel[i].clone();
            cancel_requests.push(
                Order {
                    instruction: order.instruction,
                    exchange: Exchange::SandBox,
                    instrument: order.instrument,
                    timestamp: exchange_timestamp,
                    cid: order.cid,
                    side: order.side,
                    state: RequestCancel { id: Some(order.state.id) },
                },
            );
            i += 1;
        }
        assert(wanted.take(i as int) =~= wanted);
        let results = self.cancel_orders(cancel_requests);
        let ghost states = choose|states: Seq<Account>| #[trigger]
            cancel_trace(states, wanted, results@) && states[0] == *old(self) && states.last() == *self;
        let mut cancelled_orders: Vec<Order<Cancelled>> = Vec::new();
        let mut j: usize = 0;
        while j < results.len()
            invariant
                j <= results@.len(),
                self.wf(),
                cancel_trace(states, wanted, results@),
                states[0] == *old(self),
                states.last() == *self,
                wanted == cancel_requests_for(
                    resting_orders(old(self).orders.books@, old(self).orders.books@.len() as int),
                    old(self).exchange_timestamp,
                ),
                cancelled_orders@.len() == j,
                forall|k: int|
                    0 <= k < j ==> #[trigger] results@[k] == Ok::<Order<Cancelled>, ExchangeError>(cancelled_orders@[k]),
            decreases results@.len() - j,
        {
            match &results[j] {
                Ok(cancelled) => {
                    cancelled_orders.push(cancelled.clone());
                },
                Err(e) => {
                    return Err(e.clone());
                },
            }
            j += 1;
        }
        Ok(cancelled_orders)
    }

    /// Gives each of the tokens a fresh balance, nothing held and priced at
    /// one, where the account has none. The entries are created at the time
    /// that the wall clock shows.
    pub fn initialize_tokens(&mut self, tokens: Vec<String>) -> (r: Result<(), ExchangeError>)
        ensures
            r is Ok,
            same_but_balances(*old(self), *final(self)),
            exists|created_at: i64|
                final(self).balances@ == #[trigger] tokens_initialized(
                    old(self).balances@,
                    tokens@,
                    tokens@.len() as int,
                    created_at,
                ),
    {
        let now = wall_clock_millis();
        let mut i: usize = 0;
        while i < tokens.len()
            invariant
                i <= tokens@.len(),
                same_but_balances(*old(self), *self),
                self.balances@ == tokens_initialized(old(self).balances@, tokens@, i as int, now),
            decreases tokens@.len() - i,
        {
            let token = Token(tokens[i].clone());
            if self.balances.balance(&token).is_err() {
                self.balances.set(&token, Balance { time: now, current_price: SCALE, total: 0, available: 0 });
            }
            i += 1;
        }
        Ok(())
    }

    /// Credits `amount` to the total and the available balance of `token`,
    /// creating the balance if the token has none, and returns the new balance.
    pub fn deposit_coin(&mut self, token: Token, amount: i64) -> (r: Result<TokenBalance, ExchangeError>)
        ensures
            same_but_balances(*old(self), *final(self)),
            exists|created_at: i64|
                {
                    let made = #[trigger] deposits_made(old(self).balances@, seq![(token, amount)], 1, created_at);
                    &&& final(self).balances@ == made.0
                    &&& made.2 ==> r == Ok::<TokenBalance, ExchangeError>(made.1[0])
                    &&& !made.2 ==> r is Err && is_out_of_range(r->Err_0)
                },
    {
        let now = wall_clock_millis();
        let ghost deposits = seq![(token, amount)];
        proof {
            reveal_with_fuel(deposits_made, 3);
            assert(deposits_made(self.balances@, deposits, 0, now) == (
                self.balances@,
                Seq::<TokenBalance>::empty(),
                true,
            ));
        }
        match self.balances.update_at(&token, BalanceDelta { total: amount, available: amount }, now) {
            Ok(balance) => {
                assert(deposits_made(old(self).balances@, deposits, 1, now).1 =~= seq![
                    TokenBalance { token, balance },
                ]);
                Ok(TokenBalance { token, balance })
            },
            Err(e) => Err(e),
        }
    }

    /// Makes the deposits in order and returns the new balances. The deposits
    /// stop at the first whose balance is not representable; those made before
    /// it stay, and `InternalError` is returned.
    pub fn deposit_multiple_coins(&mut self, deposits: Vec<(Token, i64)>) -> (r: Result<Vec<TokenBalance>, ExchangeError>)
        ensures
            same_but_balances(*old(self), *final(self)),
            exists|created_at: i64|
                {
                    let made = #[trigger] deposits_made(
                        old(self).balances@,
                        deposits@,
                        deposits@.len() as int,
                        created_at,
                    );
                    &&& final(self).balances@ == made.0
                    &&& made.2 ==> r is Ok && r->Ok_0@ == made.1
                    &&& !made.2 ==> r is Err && is_out_of_range(r->Err_0)
                },
    {
        let now = wall_clock_millis();
        let mut updated_balances: Vec<TokenBalance> = Vec::new();
        let mut i: usize = 0;
        while i < deposits.len()
            invariant
                i <= deposits@.len(),
                same_but_balances(*old(self), *self),
                deposits_made(old(self).balances@, deposits@, i as int, now) == (
                    self.balances@,
                    updated_balances@,
                    true,
                ),
            decreases deposits@.len() - i,
        {
            let token = deposits[i].0.clone();
            let amount = deposits[i].1;
            match self.balances.update_at(&token, BalanceDelta { total: amount, available: amount }, now) {
                Ok(balance) => {
                    updated_balances.push(TokenBalance { token, balance });
                },
                Err(e) => {
                    proof {
                        lemma_deposits_stop(old(self).balances@, deposits@, i + 1, deposits@.len() as int, now);
                    }
                    return Err(e);
                },
            }
            i += 1;
        }
        Ok(updated_balances)
    }

    /// Credits `amount` of tether.
    pub fn deposit_usdt(&mut self, amount: i64) -> (r: Result<TokenBalance, ExchangeError>)
        ensures
            same_but_balances(*old(self), *final(self)),
            exists|created_at: i64, token: Token|
                {
                    let made = #[trigger] deposits_made(old(self).balances@, seq![(token, amount)], 1, created_at);
                    &&& token@ == "USDT"@
                    &&& final(self).balances@ == made.0
                    &&& made.2 ==> r == Ok::<TokenBalance, ExchangeError>(made.1[0])
                    &&& !made.2 ==> r is Err && is_out_of_range(r->Err_0)
                },
    {
        self.deposit_coin(Token::new("USDT"), amount)
    }

    /// Credits `amount` of bitcoin.
    pub fn deposit_bitcoin(&mut self, amount: i64) -> (r: Result<TokenBalance, ExchangeError>)
        ensures
            same_but_balances(*old(self), *final(self)),
            exists|created_at: i64, token: Token|
                {
                    let made = #[trigger] deposits_made(old(self).balances@, seq![(token, amount)], 1, created_at);
                    &&& token@ == "BTC"@
                    &&& final(self).balances@ == made.0
                    &&& made.2 ==> r == Ok::<TokenBalance, ExchangeError>(made.1[0])
                    &&& !made.2 ==> r is Err && is_out_of_range(r->Err_0)
                },
    {
        self.deposit_coin(Token::new("BTC"), amount)
    }

    /// Buys bitcoin for `usdt_amount` of tether at `btc_price` and returns
    /// the new balances, tether first; see [`topup`]. A refusal changes nothing.
    pub fn topup_bitcoin_with_usdt(&mut self, usdt_amount: i64, btc_price: i64) -> (r: Result<
        Vec<TokenBalance>,
        ExchangeError,
    >)
        ensures
            same_but_balances(*old(self), *final(self)),
            match topup(old(self).balances@, usdt_amount, btc_price) {
                Err(TopupRefusal::UnknownToken(ticker)) => r is Err && (r->Err_0 matches ExchangeError::UnknownToken(
                    t,
                ) && t@ == ticker) && *final(self) == *old(self),
                Err(TopupRefusal::Insufficient) => r is Err && (r->Err_0 matches ExchangeError::InsufficientBalance(t)
                    && t@ == "USDT"@) && *final(self) == *old(self),
                Err(TopupRefusal::OutOfRange) => r is Err && is_out_of_range(r->Err_0) && *final(self) == *old(self),
                Ok((usdt, btc)) => {
                    &&& r is Ok
                    &&& r->Ok_0@.len() == 2
                    &&& r->Ok_0@[0].token@ == "USDT"@ && r->Ok_0@[0].balance == usdt
                    &&& r->Ok_0@[1].token@ == "BTC"@ && r->Ok_0@[1].balance == btc
                    &&& final(self).balances@ == old(self).balances@.insert("USDT"@, usdt).insert("BTC"@, btc)
                },
            },
    {
        let usdt_token = Token::new("USDT");
        let btc_token = Token::new("BTC");
        proof {
            reveal_strlit("USDT");
            reveal_strlit("BTC");
            assert("USDT"@ != "BTC"@) by {
                assert("USDT"@.len() == 4);
            }
        }
        let mut usdt_balance = match self.balances.balance(&usdt_token) {
            Ok(balance) => balance,
            Err(e) => {
                return Err(e);
            },
        };
        if usdt_balance.available < usdt_amount {
            return Err(ExchangeError::InsufficientBalance(usdt_token));
        }
        let mut btc_balance = match self.balances.balance(&btc_token) {
            Ok(balance) => balance,
            Err(e) => {
                return Err(e);
            },
        };
        let btc_amount = match div_fixed(usdt_amount, btc_price) {
            Some(v) => v,
            None => {
                return Err(out_of_range());
            },
        };
        let paid = match sub_fixed(0, usdt_amount) {
            Some(v) => v,
            None => {
                return Err(out_of_range());
            },
        };
        if usdt_balance.apply(BalanceDelta { total: paid, available: paid }).is_none() {
            return Err(out_of_range());
        }
        if btc_balance.apply(BalanceDelta { total: btc_amount, available: btc_amount }).is_none() {
            return Err(out_of_range());
        }
        self.balances.set(&usdt_token, usdt_balance);
        self.balances.set(&btc_token, btc_balance);
        let mut updated: Vec<TokenBalance> = Vec::new();
        updated.push(TokenBalance::new(usdt_token, usdt_balance));
        updated.push(TokenBalance::new(btc_token, btc_balance));
        Ok(updated)
    }
}

/// Once a deposit was not representable, no later one is made.
pub proof fn lemma_deposits_stop(
    entries: Map<Seq<char>, Balance>,
    deposits: Seq<(Token, i64)>,
    failed: int,
    n: int,
    created_at: i64,
)
    requires
        0 < failed <= n,
        !deposits_made(entries, deposits, failed, created_at).2,
    ensures
        deposits_made(entries, deposits, n, created_at) == deposits_made(entries, deposits, failed, created_at),
    decreases n - failed,
{
    if failed < n {
        lemma_deposits_stop(entries, deposits, failed, n - 1, created_at);
    }
}

/// With a price and size above zero and a leverage of at least one the
/// required balance is not negative.
pub proof fn lemma_requirement_not_negative(kind: InstrumentKind, side: Side, price: int, size: int, leverage: int)
    requires
        price > 0,
        size > 0,
        leverage >= SCALE,
    ensures
        required_balance(kind, side, price, size, leverage) >= 0,
{
    let factor = leverage_for(kind, leverage);
    lemma_notional_monotonic(price, 0, size);
    let value = notional(price, size);
    assert(value * factor >= 0) by (nonlinear_arith)
        requires
            value >= 0,
            factor >= 0,
    ;
    assert(size * factor >= 0) by (nonlinear_arith)
        requires
            size >= 0,
            factor >= 0,
    ;
    vstd::arithmetic::div_mod::lemma_div_is_ordered(0, value * factor, SCALE as int);
    vstd::arithmetic::div_mod::lemma_div_is_ordered(0, size * factor, SCALE as int);
}

} // verus!
