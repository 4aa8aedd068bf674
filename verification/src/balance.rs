//! Token balances and the account's balance store.
use vstd::prelude::*;
use vstd::string::StringExecFns;
use crate::config::PositionMarginMode;
use crate::error::{is_out_of_range, out_of_range, ExchangeError};
use crate::event::{sandbox_event, AccountEvent, AccountEventKind, EventKindView, EventView};
use crate::fixed::{add_fixed, fits_i64, mul_fixed, notional, sub_fixed, SCALE};
use crate::instrument::{Exchange, Instrument, InstrumentKind, Side, Token};
use crate::order::{Open, Order};
use crate::trade::ClientTrade;

verus! {

/// What the account holds of one token.
///
/// `total` is everything held; `available` is the part not reserved by resting
/// orders. `current_price` is the last known price of the token and `time` the
/// millisecond at which the entry was created.
#[derive(Clone, Copy, Debug, PartialEq, Eq, Structural)]
pub struct Balance {
    pub time: i64,
    pub current_price: i64,
    pub total: i64,
    pub available: i64,
}

/// A signed change of a balance.
#[derive(Clone, Copy, Debug, PartialEq, Eq, Structural)]
pub struct BalanceDelta {
    pub total: i64,
    pub available: i64,
}

impl BalanceDelta {
    pub fn new(total: i64, available: i64) -> (r: Self)
        ensures
            r == (BalanceDelta { total, available }),
    {
        BalanceDelta { total, available }
    }
}

impl Balance {
    /// A balance with the given amounts, priced at `current_price`, created at time 0.
    pub fn new(total: i64, available: i64, current_price: i64) -> (r: Self)
        ensures
            r == (Balance { time: 0, current_price, total, available }),
    {
        Balance { time: 0, current_price, total, available }
    }

    /// The entry that a token gets on first reference: nothing held, price `1.0`.
    pub open spec fn fresh(time: i64) -> Balance {
        Balance { time, current_price: SCALE, total: 0, available: 0 }
    }

    /// `delta` can be added without leaving the representable range.
    pub open spec fn accepts(&self, delta: BalanceDelta) -> bool {
        fits_i64(self.total + delta.total) && fits_i64(self.available + delta.available)
    }

    /// This balance with `delta` added to both amounts.
    pub open spec fn plus(&self, delta: BalanceDelta) -> Balance
        recommends
            self.accepts(delta),
    {
        Balance {
            time: self.time,
            current_price: self.current_price,
            total: (self.total + delta.total) as i64,
            available: (self.available + delta.available) as i64,
        }
    }

    /// Adds `delta` to both amounts. When a sum would leave the `i64` range the
    /// balance is left as it was and `None` is returned.
    pub fn apply(&mut self, delta: BalanceDelta) -> (r: Option<Balance>)
        ensures
            old(self).accepts(delta) ==> r == Some(old(self).plus(delta)) && *final(self) == old(self).plus(delta),
            !old(self).accepts(delta) ==> r is None && *final(self) == *old(self),
    {
        match (add_fixed(self.total, delta.total), add_fixed(self.available, delta.available)) {
            (Some(total), Some(available)) => {
                self.total = total;
                self.available = available;
                Some(*self)
            },
            _ => None,
        }
    }
}

/// A balance together with the token it is of.
#[derive(Debug, PartialEq, Eq)]
pub struct TokenBalance {
    pub token: Token,
    pub balance: Balance,
}

impl Clone for TokenBalance {
    fn clone(&self) -> (r: Self)
        ensures
            r == *self,
    {
        TokenBalance { token: self.token.clone(), balance: self.balance }
    }
}

impl TokenBalance {
    pub fn new(token: Token, balance: Balance) -> (r: Self)
        ensures
            r == (TokenBalance { token, balance }),
    {
        TokenBalance { token, balance }
    }
}

/// `dashmap::DashMap`: a concurrent hash map. What it holds is known only
/// through [`ledger_entries`].
#[verifier::external_type_specification]
#[verifier::external_body]
#[verifier::reject_recursive_types(K)]
#[verifier::reject_recursive_types(V)]
#[verifier::reject_recursive_types(S)]
pub struct ExDashMap<K, V, S>(dashmap::DashMap<K, V, S>);

/// The concurrent map that holds the balances, keyed by ticker.
pub type Ledger = dashmap::DashMap<String, Balance>;

/// The entries of a concurrent map from tickers to balances.
pub uninterp spec fn ledger_entries(m: Ledger) -> Map<Seq<char>, Balance>;

/// The store without entries.
pub open spec fn no_entries() -> Map<Seq<char>, Balance> {
    Map::empty()
}

/// `dashmap::DashMap::new`: a map without entries.
#[verifier::external_body]
fn ledger_new() -> (r: Ledger)
    ensures
        ledger_entries(r) == no_entries(),
{
    dashmap::DashMap::new()
}

/// `dashmap::DashMap::get`: the value stored under `key`, copied out of the
/// map's guard, or `None` when the map has no such key.
#[verifier::external_body]
fn ledger_get(m: &Ledger, key: &str) -> (r: Option<Balance>)
    ensures
        r == (if ledger_entries(*m).contains_key(key@) {
            Some(ledger_entries(*m)[key@])
        } else {
            None::<Balance>
        }),
{
    m.get(key).map(|entry| *entry)
}

/// `dashmap::DashMap::insert`: stores `value` under `key`, replacing and
/// returning the value that was there, and leaves every other entry alone.
#[verifier::external_body]
fn ledger_insert(m: &mut Ledger, key: String, value: Balance) -> (r:
    Option<Balance>)
    ensures
        ledger_entries(*final(m)) == ledger_entries(*old(m)).insert(key@, value),
        r == (if ledger_entries(*old(m)).contains_key(key@) {
            Some(ledger_entries(*old(m))[key@])
        } else {
            None::<Balance>
        }),
{
    m.insert(key, value)
}

/// `dashmap::DashMap::iter`: every entry of the map exactly once, each copied
/// out as a pair. The order in which the entries come is not determined.
#[verifier::external_body]
fn ledger_pairs(m: &Ledger) -> (r: Vec<(String, Balance)>)
    ensures
        forall|i: int|
            0 <= i < r@.len() ==> ledger_entries(*m).contains_key(#[trigger] r@[i].0@)
                && ledger_entries(*m)[r@[i].0@] == r@[i].1,
        forall|k: Seq<char>| #[trigger]
            ledger_entries(*m).contains_key(k) ==> exists|i: int|
                0 <= i < r@.len() && r@[i].0@ == k,
        forall|i: int, j: int| 0 <= i < j < r@.len() ==> r@[i].0@ != r@[j].0@,
{
    m.iter().map(|entry| (entry.key().clone(), *entry.value())).collect()
}

/// `dashmap::DashMap::clone`: a map with the same entries.
#[verifier::external_body]
fn ledger_clone(m: &Ledger) -> (r: Ledger)
    ensures
        ledger_entries(r) == ledger_entries(*m),
{
    m.clone()
}

/// `chrono::Utc::now` read through `DateTime::timestamp_millis`: the wall
/// clock in milliseconds since the Unix epoch. `now` returns only when the
/// clock is not before the epoch, so the value is never negative; nothing else
/// is known of it.
#[verifier::external_body]
pub(crate) fn wall_clock_millis() -> (r: i64)
    ensures
        r >= 0,
{
    chrono::Utc::now().timestamp_millis()
}

/// The balances of an account, one entry per token.
pub struct AccountBalances {
    pub balance_map: Ledger,
}

impl View for AccountBalances {
    type V = Map<Seq<char>, Balance>;

    closed spec fn view(&self) -> Map<Seq<char>, Balance> {
        ledger_entries(self.balance_map)
    }
}

/// The entry that an amount change starts from: the stored one, or a fresh
/// entry created at `time` when the token has none.
pub open spec fn entry_or_fresh(entries: Map<Seq<char>, Balance>, token: Seq<char>, time: i64) -> Balance {
    if entries.contains_key(token) {
        entries[token]
    } else {
        Balance::fresh(time)
    }
}

/// `listing` shows every entry of `entries` exactly once.
pub open spec fn lists_entries(listing: Seq<TokenBalance>, entries: Map<Seq<char>, Balance>) -> bool {
    &&& forall|i: int|
        0 <= i < listing.len() ==> entries.contains_key(#[trigger] listing[i].token@)
            && entries[listing[i].token@] == listing[i].balance
    &&& forall|k: Seq<char>| #[trigger]
        entries.contains_key(k) ==> exists|i: int| 0 <= i < listing.len() && listing[i].token@ == k
    &&& forall|i: int, j: int| 0 <= i < j < listing.len() ==> listing[i].token@ != listing[j].token@
}

/// The token whose balance an order on `side` reserves, and whose price the
/// order is measured against: the quote token for a buy, the base token for a sell.
pub open spec fn reserve_token(instrument: Instrument, side: Side) -> Token {
    match side {
        Side::Buy => instrument.quote,
        Side::Sell => instrument.base,
    }
}

/// What the cancelling of `order` gives back to the available balance: for a
/// buy the notional of what remains unfilled, for a sell what remains unfilled.
pub open spec fn released(order: Order<Open>) -> int {
    match order.side {
        Side::Buy => notional(order.state.price as int, order.state.remaining()),
        Side::Sell => order.state.remaining(),
    }
}

/// The balance of the reserved token after `order` was cancelled: the
/// available amount raised by what the order releases, starting from a fresh
/// entry, created at `created_at`, when the token has none. `None` when the
/// amount is not representable.
pub open spec fn release_balance(entries: Map<Seq<char>, Balance>, order: Order<Open>, created_at: i64) -> Option<
    Balance,
> {
    let token = reserve_token(order.instrument, order.side);
    let start = entry_or_fresh(entries, token@, created_at);
    if fits_i64(order.state.remaining()) && fits_i64(released(order)) && start.accepts(
        BalanceDelta { total: 0, available: released(order) as i64 },
    ) {
        Some(start.plus(BalanceDelta { total: 0, available: released(order) as i64 }))
    } else {
        None
    }
}

/// The balance of the reserved token after `required_balance` was taken from
/// its available amount, starting from a fresh entry, created at `created_at`,
/// when the token has none. `None` when that is not representable.
pub open spec fn reserve_balance(
    entries: Map<Seq<char>, Balance>,
    open: Order<Open>,
    required_balance: i64,
    created_at: i64,
) -> Option<Balance> {
    let token = reserve_token(open.instrument, open.side);
    let start = entry_or_fresh(entries, token@, created_at);
    if fits_i64(-required_balance) && start.accepts(BalanceDelta { total: 0, available: (-required_balance) as i64 }) {
        Some(start.plus(BalanceDelta { total: 0, available: (-required_balance) as i64 }))
    } else {
        None
    }
}

/// The kinds of instrument whose trades move balances.
pub open spec fn settles(kind: InstrumentKind) -> bool {
    kind == InstrumentKind::Perpetual || kind == InstrumentKind::Future || kind == InstrumentKind::CryptoLeveragedToken
}

/// What a trade adds to the balance of its base token: a buy adds the size
/// to total and available; a sell takes the size from the total only, the
/// order having reserved it.
pub open spec fn base_delta(trade: ClientTrade) -> (int, int) {
    match trade.side {
        Side::Buy => (trade.size as int, trade.size as int),
        Side::Sell => (-trade.size, 0),
    }
}

/// What a trade adds to the balance of its quote token: a buy takes the
/// notional and the fee from the total and the fee from the available amount,
/// the order having reserved the notional; a sell adds the notional less the
/// fee to both.
pub open spec fn quote_delta(trade: ClientTrade) -> (int, int) {
    let value = notional(trade.price as int, trade.size as int);
    match trade.side {
        Side::Buy => (-value - trade.fees, -trade.fees),
        Side::Sell => (value - trade.fees, value - trade.fees),
    }
}

/// The two deltas of a trade are representable.
pub open spec fn deltas_representable(trade: ClientTrade) -> bool {
    &&& fits_i64(notional(trade.price as int, trade.size as int))
    &&& fits_i64(-notional(trade.price as int, trade.size as int))
    &&& fits_i64(base_delta(trade).0) && fits_i64(base_delta(trade).1)
    &&& fits_i64(quote_delta(trade).0) && fits_i64(quote_delta(trade).1)
}

/// The balances after a trade was settled, with the two balances that the
/// client is told of.
pub struct Settlement {
    pub entries: Map<Seq<char>, Balance>,
    pub base: Balance,
    pub quote: Balance,
}

/// What settling `trade` does to the balances: the base token's balance takes
/// its delta, then the quote token's balance takes its own, each starting from
/// a fresh entry created at `created_at` when the token has none. `None` when
/// a value is not representable.
pub open spec fn settlement(entries: Map<Seq<char>, Balance>, trade: ClientTrade, created_at: i64) -> Option<Settlement> {
    let base_change = BalanceDelta { total: base_delta(trade).0 as i64, available: base_delta(trade).1 as i64 };
    let quote_change = BalanceDelta { total: quote_delta(trade).0 as i64, available: quote_delta(trade).1 as i64 };
    let base_start = entry_or_fresh(entries, trade.instrument.base@, created_at);
    let with_base = entries.insert(trade.instrument.base@, base_start.plus(base_change));
    let quote_start = entry_or_fresh(with_base, trade.instrument.quote@, created_at);
    if deltas_representable(trade) && base_start.accepts(base_change) && quote_start.accepts(quote_change) {
        Some(
            Settlement {
                entries: with_base.insert(trade.instrument.quote@, quote_start.plus(quote_change)),
                base: base_start.plus(base_change),
                quote: quote_start.plus(quote_change),
            },
        )
    } else {
        None
    }
}

/// The event that tells the client of the two balances of a settled trade.
pub open spec fn settlement_event(timestamp: i64, trade: ClientTrade, settled: Settlement) -> EventView {
    sandbox_event(
        timestamp,
        EventKindView::Balances(
            seq![
                TokenBalance { token: trade.instrument.base, balance: settled.base },
                TokenBalance { token: trade.instrument.quote, balance: settled.quote },
            ],
        ),
    )
}

impl AccountBalances {
    /// A store without entries.
    pub fn new() -> (r: Self)
        ensures
            r@ == no_entries(),
    {
        AccountBalances { balance_map: ledger_new() }
    }

    /// A store with the same entries.
    pub fn duplicate(&self) -> (r: Self)
        ensures
            r@ == self@,
    {
        AccountBalances { balance_map: ledger_clone(&self.balance_map) }
    }

    /// The balance of `token`, or `UnknownToken` when the store has no entry for it.
    pub fn balance(&self, token: &Token) -> (r: Result<Balance, ExchangeError>)
        ensures
            self@.contains_key(token@) ==> r == Ok::<Balance, ExchangeError>(self@[token@]),
            !self@.contains_key(token@) ==> r == Err::<Balance, ExchangeError>(
                ExchangeError::UnknownToken(*token),
            ),
    {
        match ledger_get(&self.balance_map, token.0.as_str()) {
            Some(balance) => Ok(balance),
            None => Err(ExchangeError::UnknownToken(token.clone())),
        }
    }

    /// Writes `value` over the entry of `token` and returns the entry it
    /// replaced. Fails with `UnknownToken`, changing nothing, when the store has
    /// no entry for the token.
    pub fn balance_mut(&mut self, token: &Token, value: Balance) -> (r: Result<Balance, ExchangeError>)
        ensures
            old(self)@.contains_key(token@) ==> r == Ok::<Balance, ExchangeError>(old(self)@[token@])
                && final(self)@ == old(self)@.insert(token@, value),
            !old(self)@.contains_key(token@) ==> r == Err::<Balance, ExchangeError>(
                ExchangeError::UnknownToken(*token),
            ) && final(self)@ == old(self)@,
    {
        match ledger_get(&self.balance_map, token.0.as_str()) {
            Some(previous) => {
                let _ = ledger_insert(&mut self.balance_map, token.0.clone(), value);
                Ok(previous)
            },
            None => Err(ExchangeError::UnknownToken(token.clone())),
        }
    }

    /// Stores `value` as the entry of `token`, creating the entry if need be.
    pub fn set(&mut self, token: &Token, value: Balance)
        ensures
            final(self)@ == old(self)@.insert(token@, value),
    {
        let _ = ledger_insert(&mut self.balance_map, token.0.clone(), value);
    }

    /// Every entry of the store, each exactly once, in no particular order.
    pub fn fetch_all(&self) -> (r: Vec<TokenBalance>)
        ensures
            lists_entries(r@, self@),
    {
        let pairs = ledger_pairs(&self.balance_map);
        let mut listing: Vec<TokenBalance> = Vec::new();
        let mut i: usize = 0;
        while i < pairs.len()
            invariant
                i <= pairs.len(),
                listing@.len() == i,
                forall|j: int|
                    0 <= j < i ==> (#[trigger] listing@[j]).token@ == pairs@[j].0@ && listing@[j].balance
                        == pairs@[j].1,
            decreases pairs.len() - i,
        {
            let token = Token(pairs[i].0.clone());
            listing.push(TokenBalance { token, balance: pairs[i].1 });
            i += 1;
        }
        assert(lists_entries(listing@, self@)) by {
            assert forall|k: Seq<char>| #[trigger] self@.contains_key(k) implies exists|i: int|
                0 <= i < listing@.len() && listing@[i].token@ == k by {
                let w = choose|w: int| 0 <= w < pairs@.len() && pairs@[w].0@ == k;
                assert(listing@[w].token@ == k);
            }
        }
        listing
    }

    /// Whether `token` has an available balance of at least `required`.
    /// `UnknownToken` when the store has no entry for the token, otherwise
    /// `InsufficientBalance` exactly when `available < required`.
    pub fn has_sufficient_available_balance(&self, token: &Token, required_balance: i64) -> (r: Result<
        (),
        ExchangeError,
    >)
        ensures
            !self@.contains_key(token@) ==> r == Err::<(), ExchangeError>(
                ExchangeError::UnknownToken(*token),
            ),
            self@.contains_key(token@) && self@[token@].available >= required_balance ==> r is Ok,
            self@.contains_key(token@) && self@[token@].available < required_balance ==> r == Err::<
                (),
                ExchangeError,
            >(ExchangeError::InsufficientBalance(*token)),
    {
        match ledger_get(&self.balance_map, token.0.as_str()) {
            None => Err(ExchangeError::UnknownToken(token.clone())),
            Some(balance) => {
                if balance.available >= required_balance {
                    Ok(())
                } else {
                    Err(ExchangeError::InsufficientBalance(token.clone()))
                }
            },
        }
    }

    /// Adds `delta` to the balance of `token` and returns the new balance. A
    /// token without an entry starts from a fresh one, created at the time
    /// `created_at`. When a sum would leave the `i64` range nothing changes and
    /// `InternalError` is returned.
    pub fn update_at(&mut self, token: &Token, delta: BalanceDelta, created_at: i64) -> (r: Result<
        Balance,
        ExchangeError,
    >)
        ensures
            updated_by(old(self)@, final(self)@, token@, delta, created_at, r),
            r is Err ==> *final(self) == *old(self),
    {
        let mut balance = match ledger_get(&self.balance_map, token.0.as_str()) {
            Some(balance) => balance,
            None => Balance { time: created_at, current_price: SCALE, total: 0, available: 0 },
        };
        match balance.apply(delta) {
            Some(updated) => {
                let _ = ledger_insert(&mut self.balance_map, token.0.clone(), updated);
                Ok(updated)
            },
            None => Err(out_of_range()),
        }
    }

    /// [`Self::update_at`] with the wall clock as the time at which a missing
    /// entry is created. For a token that has an entry the outcome does not
    /// depend on the clock.
    pub fn update(&mut self, token: &Token, delta: BalanceDelta) -> (r: Result<Balance, ExchangeError>)
        ensures
            exists|created_at: i64| #[trigger] updated_by(old(self)@, final(self)@, token@, delta, created_at, r),
    {
        let now = wall_clock_millis();
        self.update_at(token, delta, now)
    }

    /// Credits `amount` to both the total and the available balance of `token`,
    /// creating the entry if the token has none, and returns the new balance.
    pub fn deposit(&mut self, token: &Token, amount: i64) -> (r: Result<TokenBalance, ExchangeError>)
        ensures
            exists|created_at: i64, b: Result<Balance, ExchangeError>|
                {
                    &&& #[trigger] updated_by(
                        old(self)@,
                        final(self)@,
                        token@,
                        BalanceDelta { total: amount, available: amount },
                        created_at,
                        b,
                    )
                    &&& b is Ok ==> r == Ok::<TokenBalance, ExchangeError>(
                        TokenBalance { token: *token, balance: b->Ok_0 },
                    )
                    &&& b is Err ==> r is Err && is_out_of_range(r->Err_0)
                },
    {
        let now = wall_clock_millis();
        let updated = self.update_at(token, BalanceDelta { total: amount, available: amount }, now);
        match updated {
            Ok(balance) => Ok(TokenBalance { token: token.clone(), balance }),
            Err(e) => {
                Err(e)
            },
        }
    }

    /// Takes `required_balance` from the available balance of the token that
    /// `open` reserves and returns the event, stamped `exchange_timestamp`,
    /// that reports the new balance.
    ///
    /// `UnsupportedInstrumentKind` for a kind of instrument that has no
    /// margin; `NotImplemented` under cross margin; `InternalError` when the
    /// new balance is not representable. A failure changes nothing.
    pub fn update_from_open(
        &mut self,
        open: &Order<Open>,
        required_balance: i64,
        margin_mode: PositionMarginMode,
        exchange_timestamp: i64,
    ) -> (r: Result<AccountEvent, ExchangeError>)
        ensures
            r is Err ==> *final(self) == *old(self),
            !settles(open.instrument.kind) ==> r is Err && r->Err_0 == ExchangeError::UnsupportedInstrumentKind,
            settles(open.instrument.kind) && margin_mode == PositionMarginMode::Cross ==> r is Err && (r->Err_0
                matches ExchangeError::NotImplemented(feature) && feature@ == "cross margin"@),
            settles(open.instrument.kind) && margin_mode == PositionMarginMode::Isolated ==> match reserve_balance(
                old(self)@,
                *open,
                required_balance,
                exchange_timestamp,
            ) {
                None => r is Err && is_out_of_range(r->Err_0),
                Some(balance) => r is Ok && r->Ok_0@ == sandbox_event(
                    exchange_timestamp,
                    EventKindView::Balance(TokenBalance { token: reserve_token(open.instrument, open.side), balance }),
                ) && final(self)@ == old(self)@.insert(reserve_token(open.instrument, open.side)@, balance),
            },
    {
        match open.instrument.kind {
            InstrumentKind::Perpetual | InstrumentKind::Future | InstrumentKind::CryptoLeveragedToken => {},
            _ => {
                return Err(ExchangeError::UnsupportedInstrumentKind);
            },
        }
        if margin_mode == PositionMarginMode::Cross {
            return Err(ExchangeError::NotImplemented(String::from_str("cross margin")));
        }
        let amount = match sub_fixed(0, required_balance) {
            Some(v) => v,
            None => {
                return Err(out_of_range());
            },
        };
        let token = match open.side {
            Side::Buy => open.instrument.quote.clone(),
            Side::Sell => open.instrument.base.clone(),
        };
        match self.update_at(&token, BalanceDelta { total: 0, available: amount }, exchange_timestamp) {
            Ok(balance) => Ok(
                AccountEvent {
                    exchange_timestamp,
                    exchange: Exchange::SandBox,
                    kind: AccountEventKind::Balance(TokenBalance::new(token, balance)),
                },
            ),
            Err(e) => Err(e),
        }
    }

    /// Gives back to the available balance what the cancelled order had
    /// reserved and returns the new balance. When the amount is not
    /// representable nothing changes and `InternalError` is returned.
    pub fn update_from_cancel(&mut self, cancelled: &Order<Open>, exchange_timestamp: i64) -> (r: Result<
        TokenBalance,
        ExchangeError,
    >)
        ensures
            match release_balance(old(self)@, *cancelled, exchange_timestamp) {
                None => r is Err && is_out_of_range(r->Err_0) && *final(self) == *old(self),
                Some(balance) => r == Ok::<TokenBalance, ExchangeError>(
                    TokenBalance { token: reserve_token(cancelled.instrument, cancelled.side), balance },
                ) && final(self)@ == old(self)@.insert(reserve_token(cancelled.instrument, cancelled.side)@, balance),
            },
    {
        let remaining = match sub_fixed(cancelled.state.size, cancelled.state.filled_quantity) {
            Some(v) => v,
            None => {
                return Err(out_of_range());
            },
        };
        let (token, amount) = match cancelled.side {
            Side::Buy => match mul_fixed(cancelled.state.price, remaining) {
                Some(value) => (cancelled.instrument.quote.clone(), value),
                None => {
                    return Err(out_of_range());
                },
            },
            Side::Sell => (cancelled.instrument.base.clone(), remaining),
        };
        match self.update_at(&token, BalanceDelta { total: 0, available: amount }, exchange_timestamp) {
            Ok(balance) => Ok(TokenBalance::new(token, balance)),
            Err(e) => Err(e),
        }
    }

    /// Settles a trade in the balances of its base and quote tokens and
    /// returns the event, stamped `exchange_timestamp`, that reports the two
    /// new balances; see [`settlement`].
    ///
    /// `UnsupportedInstrumentKind` for a kind of instrument whose trades move
    /// no balances, `InternalError` when a value is not representable. A
    /// failure changes nothing.
    pub fn update_from_trade(&mut self, trade: &ClientTrade, exchange_timestamp: i64) -> (r: Result<
        AccountEvent,
        ExchangeError,
    >)
        ensures
            r is Err ==> *final(self) == *old(self),
            !settles(trade.instrument.kind) ==> r is Err && r->Err_0 == ExchangeError::UnsupportedInstrumentKind,
            settles(trade.instrument.kind) ==> match settlement(old(self)@, *trade, exchange_timestamp) {
                None => r is Err && is_out_of_range(r->Err_0),
                Some(settled) => r is Ok && r->Ok_0@ == settlement_event(exchange_timestamp, *trade, settled)
                    && final(self)@ == settled.entries,
            },
    {
        match trade.instrument.kind {
            InstrumentKind::Perpetual | InstrumentKind::Future | InstrumentKind::CryptoLeveragedToken => {},
            _ => {
                return Err(ExchangeError::UnsupportedInstrumentKind);
            },
        }
        let value = match mul_fixed(trade.price, trade.size) {
            Some(v) => v,
            None => {
                return Err(out_of_range());
            },
        };
        let deltas = match trade.side {
            Side::Buy => match (
                sub_fixed(0, value),
                sub_fixed(0, trade.fees),
            ) {
                (Some(negative_value), Some(negative_fee)) => match sub_fixed(negative_value, trade.fees) {
                    Some(quote_total) => Some(
                        (
                            BalanceDelta { total: trade.size, available: trade.size },
                            BalanceDelta { total: quote_total, available: negative_fee },
                        ),
                    ),
                    None => None,
                },
                _ => None,
            },
            Side::Sell => match (
                sub_fixed(0, value),
                sub_fixed(0, trade.size),
                sub_fixed(value, trade.fees),
            ) {
                (Some(_), Some(negative_size), Some(proceeds)) => Some(
                    (
                        BalanceDelta { total: negative_size, available: 0 },
                        BalanceDelta { total: proceeds, available: proceeds },
                    ),
                ),
                _ => None,
            },
        };
        let (base_change, quote_change) = match deltas {
            Some(pair) => pair,
            None => {
                return Err(out_of_range());
            },
        };
        let base = &trade.instrument.base;
        let quote = &trade.instrument.quote;
        let mut base_balance = match self.balance(base) {
            Ok(balance) => balance,
            Err(_) => Balance { time: exchange_timestamp, current_price: SCALE, total: 0, available: 0 },
        };
        if base_balance.apply(base_change).is_none() {
            return Err(out_of_range());
        }
        let mut quote_balance = if quote.same(base) {
            base_balance
        } else {
            match self.balance(quote) {
                Ok(balance) => balance,
                Err(_) => Balance { time: exchange_timestamp, current_price: SCALE, total: 0, available: 0 },
            }
        };
        if quote_balance.apply(quote_change).is_none() {
            return Err(out_of_range());
        }
        let ghost settled = settlement(old(self)@, *trade, exchange_timestamp);
        assert(settled is Some);
        self.set(base, base_balance);
        self.set(quote, quote_balance);
        let mut reported: Vec<TokenBalance> = Vec::new();
        reported.push(TokenBalance::new(base.clone(), base_balance));
        reported.push(TokenBalance::new(quote.clone(), quote_balance));
        assert(reported@ =~= seq![
            TokenBalance { token: trade.instrument.base, balance: base_balance },
            TokenBalance { token: trade.instrument.quote, balance: quote_balance },
        ]);
        Ok(
            AccountEvent {
                exchange_timestamp,
                exchange: Exchange::SandBox,
                kind: AccountEventKind::Balances(reported),
            },
        )
    }
}

/// How a store changes when `delta` is added to the balance of `token`, a
/// missing entry being created at `created_at`: on success the entry becomes
/// the starting balance plus `delta` and `r` is that balance; when a sum leaves
/// the `i64` range the store is unchanged and `r` is an `InternalError`.
pub open spec fn updated_by(
    before: Map<Seq<char>, Balance>,
    after: Map<Seq<char>, Balance>,
    token: Seq<char>,
    delta: BalanceDelta,
    created_at: i64,
    r: Result<Balance, ExchangeError>,
) -> bool {
    let start = entry_or_fresh(before, token, created_at);
    if start.accepts(delta) {
        r == Ok::<Balance, ExchangeError>(start.plus(delta)) && after == before.insert(token, start.plus(delta))
    } else {
        r is Err && is_out_of_range(r->Err_0) && after == before
    }
}

} // verus!
