//! Positions and the store that keeps them, one per instrument and direction.
use vstd::prelude::*;
use crate::config::{AccountConfig, PositionDirectionMode, PositionMarginMode};
use crate::error::{is_out_of_range, out_of_range, ExchangeError};
use crate::fixed::{add_fixed, div_fixed, fits_i64, mul_fixed, scaled_div, scaled_mul, sub_fixed, SCALE};
use crate::instrument::{Exchange, Instrument, InstrumentKey, InstrumentKind, Side};
use crate::position_meta::{PositionId, PositionMeta};
use crate::trade::ClientTrade;

verus! {

/// Something held under an instrument.
pub trait Held: Sized {
    /// The instrument that this is held under.
    spec fn key(&self) -> InstrumentKey;

    /// Whether this is held under `instrument`.
    fn holds(&self, instrument: &Instrument) -> (r: bool)
        ensures
            r == (self.key() == instrument@),
    ;

    /// Whether this and `other` are held under the same instrument.
    fn same_key(&self, other: &Self) -> (r: bool)
        ensures
            r == (self.key() == other.key()),
    ;
}

/// No instrument occurs twice in the list.
pub open spec fn distinct_keys<P: Held>(list: Seq<P>) -> bool {
    forall|i: int, j: int| 0 <= i < j < list.len() ==> (#[trigger] list[i]).key() != (#[trigger] list[j]).key()
}

/// The list has an entry under `key`.
pub open spec fn holds_key<P: Held>(list: Seq<P>, key: InstrumentKey) -> bool {
    exists|i: int| 0 <= i < list.len() && (#[trigger] list[i]).key() == key
}

/// The place of the entry under `key`, in a list that has one.
pub open spec fn place_of<P: Held>(list: Seq<P>, key: InstrumentKey) -> int {
    choose|i: int| 0 <= i < list.len() && (#[trigger] list[i]).key() == key
}

/// The entry under `key`, in a list that has one.
pub open spec fn held<P: Held>(list: Seq<P>, key: InstrumentKey) -> P {
    list[place_of(list, key)]
}

/// The list with `item` put under its instrument: in place of the entry that
/// was there, or at the end when there was none.
pub open spec fn upsert<P: Held>(list: Seq<P>, item: P) -> Seq<P> {
    if holds_key(list, item.key()) {
        list.update(place_of(list, item.key()), item)
    } else {
        list.push(item)
    }
}

/// The list without the entry under `key`.
pub open spec fn without<P: Held>(list: Seq<P>, key: InstrumentKey) -> Seq<P> {
    if holds_key(list, key) {
        list.remove(place_of(list, key))
    } else {
        list
    }
}

/// In a list without repeated instruments, the entry at `i` is the one under its key.
pub proof fn lemma_place<P: Held>(list: Seq<P>, i: int)
    requires
        distinct_keys(list),
        0 <= i < list.len(),
    ensures
        holds_key(list, list[i].key()),
        place_of(list, list[i].key()) == i,
        held(list, list[i].key()) == list[i],
{
    let key = list[i].key();
    let p = place_of(list, key);
    if p < i {
        assert(list[p].key() != list[i].key());
    } else if i < p {
        assert(list[i].key() != list[p].key());
    }
}

/// The place of the entry held under `instrument`; `None` when there is none.
pub fn find_held<P: Held>(list: &Vec<P>, instrument: &Instrument) -> (r: Option<usize>)
    ensures
        match r {
            Some(i) => i < list@.len() && list@[i as int].key() == instrument@ && holds_key(list@, instrument@) && (
            distinct_keys(list@) ==> place_of(list@, instrument@) == i),
            None => !holds_key(list@, instrument@),
        },
{
    let mut i: usize = 0;
    while i < list.len()
        invariant
            i <= list@.len(),
            forall|k: int| 0 <= k < i ==> (#[trigger] list@[k]).key() != instrument@,
        decreases list@.len() - i,
    {
        if list[i].holds(instrument) {
            proof {
                if distinct_keys(list@) {
                    lemma_place(list@, i as int);
                }
            }
            return Some(i);
        }
        i += 1;
    }
    None
}

/// Whether no instrument occurs twice in the list.
pub fn check_distinct<P: Held>(list: &Vec<P>) -> (r: bool)
    ensures
        r == distinct_keys(list@),
{
    let mut i: usize = 0;
    while i < list.len()
        invariant
            i <= list@.len(),
            forall|a: int, b: int| 0 <= a < b < i ==> (#[trigger] list@[a]).key() != (#[trigger] list@[b]).key(),
        decreases list@.len() - i,
    {
        let mut j: usize = 0;
        while j < i
            invariant
                i < list@.len(),
                j <= i,
                forall|a: int| 0 <= a < j ==> (#[trigger] list@[a]).key() != list@[i as int].key(),
            decreases i - j,
        {
            if list[j].same_key(&list[i]) {
                return false;
            }
            j += 1;
        }
        i += 1;
    }
    true
}

/// Whether every position of the list is on `side` with a size that is not negative.
pub fn check_held_on(list: &Vec<PerpetualPosition>, side: Side) -> (r: bool)
    ensures
        r == (forall|i: int|
            0 <= i < list@.len() ==> (#[trigger] list@[i]).meta.side == side && list@[i].meta.current_size >= 0),
{
    let mut i: usize = 0;
    while i < list.len()
        invariant
            i <= list@.len(),
            forall|k: int| 0 <= k < i ==> (#[trigger] list@[k]).meta.side == side && list@[k].meta.current_size >= 0,
        decreases list@.len() - i,
    {
        let on_side = match (list[i].meta.side, side) {
            (Side::Buy, Side::Buy) | (Side::Sell, Side::Sell) => true,
            _ => false,
        };
        if !on_side || list[i].meta.current_size < 0 {
            return false;
        }
        i += 1;
    }
    true
}

/// `after` is `before` with `item` put under its instrument: in place of the
/// entry that was there, or at the end when there was none.
pub open spec fn upserted<P: Held>(before: Seq<P>, after: Seq<P>, item: P) -> bool {
    &&& distinct_keys(after)
    &&& after == upsert(before, item)
    &&& holds_key(after, item.key()) && held(after, item.key()) == item
    &&& forall|k: InstrumentKey|
        k != item.key() ==> (#[trigger] holds_key(after, k) <==> holds_key(before, k)) && (holds_key(before, k)
            ==> held(after, k) == held(before, k))
}

/// `after` is `before` without the entry under `key`.
pub open spec fn removed<P: Held>(before: Seq<P>, after: Seq<P>, key: InstrumentKey) -> bool {
    &&& distinct_keys(after)
    &&& after == without(before, key)
    &&& !holds_key(after, key)
    &&& forall|k: InstrumentKey|
        k != key ==> (#[trigger] holds_key(after, k) <==> holds_key(before, k)) && (holds_key(before, k)
            ==> held(after, k) == held(before, k))
}

/// Replacing the entry at `at` by one of the same instrument is an upsert.
pub proof fn lemma_update_upserts<P: Held>(before: Seq<P>, at: int, item: P)
    requires
        distinct_keys(before),
        0 <= at < before.len(),
        before[at].key() == item.key(),
    ensures
        upserted(before, before.update(at, item), item),
{
    let after = before.update(at, item);
    lemma_place(before, at);
    assert(distinct_keys(after)) by {
        assert forall|i: int, j: int| 0 <= i < j < after.len() implies (#[trigger] after[i]).key() != (
        #[trigger] after[j]).key() by {
            assert(after[i].key() == before[i].key());
        }
    }
    lemma_place(after, at);
    assert forall|k: InstrumentKey| k != item.key() implies (#[trigger] holds_key(after, k) <==> holds_key(
        before,
        k,
    )) && (holds_key(before, k) ==> held(after, k) == held(before, k)) by {
        if holds_key(before, k) {
            let p = place_of(before, k);
            lemma_place(after, p);
        }
        if holds_key(after, k) {
            let p = place_of(after, k);
            lemma_place(before, p);
        }
    }
}

/// Appending an entry under an instrument that the list lacks is an upsert.
pub proof fn lemma_push_upserts<P: Held>(before: Seq<P>, item: P)
    requires
        distinct_keys(before),
        !holds_key(before, item.key()),
    ensures
        upserted(before, before.push(item), item),
{
    let after = before.push(item);
    assert(distinct_keys(after)) by {
        assert forall|i: int, j: int| 0 <= i < j < after.len() implies (#[trigger] after[i]).key() != (
        #[trigger] after[j]).key() by {
            if j < before.len() {
                assert(after[j] == before[j]);
            }
        }
    }
    lemma_place(after, before.len() as int);
    assert forall|k: InstrumentKey| k != item.key() implies (#[trigger] holds_key(after, k) <==> holds_key(
        before,
        k,
    )) && (holds_key(before, k) ==> held(after, k) == held(before, k)) by {
        if holds_key(before, k) {
            let p = place_of(before, k);
            lemma_place(after, p);
        }
        if holds_key(after, k) {
            let p = place_of(after, k);
            lemma_place(before, p);
        }
    }
}

/// Taking the entry at `at` out of the list removes its instrument.
pub proof fn lemma_remove_removes<P: Held>(before: Seq<P>, at: int)
    requires
        distinct_keys(before),
        0 <= at < before.len(),
    ensures
        removed(before, before.remove(at), before[at].key()),
{
    let after = before.remove(at);
    let key = before[at].key();
    lemma_place(before, at);
    assert forall|i: int| 0 <= i < after.len() implies #[trigger] after[i] == before[if i < at {
        i
    } else {
        i + 1
    }] by {}
    assert(distinct_keys(after)) by {
        assert forall|i: int, j: int| 0 <= i < j < after.len() implies (#[trigger] after[i]).key() != (
        #[trigger] after[j]).key() by {
            let oi = if i < at { i } else { i + 1 };
            let oj = if j < at { j } else { j + 1 };
            assert(after[i] == before[oi]);
            assert(after[j] == before[oj]);
        }
    }
    assert(!holds_key(after, key)) by {
        if holds_key(after, key) {
            let p = place_of(after, key);
            let op = if p < at { p } else { p + 1 };
            lemma_place(before, op);
        }
    }
    assert forall|k: InstrumentKey| k != key implies (#[trigger] holds_key(after, k) <==> holds_key(before, k)) && (
    holds_key(before, k) ==> held(after, k) == held(before, k)) by {
        if holds_key(before, k) {
            let p = place_of(before, k);
            let np = if p < at { p } else { p - 1 };
            lemma_place(after, np);
        }
        if holds_key(after, k) {
            let p = place_of(after, k);
            let op = if p < at { p } else { p + 1 };
            lemma_place(before, op);
        }
    }
}

/// Puts `item` under its instrument, in place of the entry that was there or
/// at the end.
pub fn upsert_held<P: Held>(list: &mut Vec<P>, instrument: &Instrument, item: P)
    requires
        distinct_keys(old(list)@),
        item.key() == instrument@,
    ensures
        upserted(old(list)@, final(list)@, item),
{
    match find_held(list, instrument) {
        Some(i) => {
            proof {
                lemma_update_upserts(list@, i as int, item);
            }
            list[i] = item;
        },
        None => {
            proof {
                lemma_push_upserts(list@, item);
            }
            list.push(item);
        },
    }
}

/// Takes the entry under `instrument` out of the list and returns it.
pub fn remove_held<P: Held>(list: &mut Vec<P>, instrument: &Instrument) -> (r: Option<P>)
    requires
        distinct_keys(old(list)@),
    ensures
        removed(old(list)@, final(list)@, instrument@),
        holds_key(old(list)@, instrument@) ==> r == Some(held(old(list)@, instrument@)),
        !holds_key(old(list)@, instrument@) ==> r is None,
{
    match find_held(list, instrument) {
        Some(i) => {
            proof {
                lemma_remove_removes(list@, i as int);
            }
            Some(list.remove(i))
        },
        None => {
            None
        },
    }
}

/// Margin mode, leverage and direction mode under which a perpetual position is held.
#[derive(Clone, Copy, Debug, PartialEq, Eq, Structural)]
pub struct PerpetualPositionConfig {
    pub pos_margin_mode: PositionMarginMode,
    pub leverage: i64,
    pub position_mode: PositionDirectionMode,
}

/// A position in a perpetual contract.
#[derive(Debug, PartialEq, Eq)]
pub struct PerpetualPosition {
    pub meta: PositionMeta,
    pub pos_config: PerpetualPositionConfig,
    pub liquidation_price: i64,
    pub margin: i64,
}

impl Clone for PerpetualPosition {
    fn clone(&self) -> (r: Self)
        ensures
            r == *self,
    {
        PerpetualPosition {
            meta: self.meta.clone(),
            pos_config: self.pos_config,
            liquidation_price: self.liquidation_price,
            margin: self.margin,
        }
    }
}

impl Held for PerpetualPosition {
    open spec fn key(&self) -> InstrumentKey {
        self.meta.instrument@
    }

    fn holds(&self, instrument: &Instrument) -> (r: bool) {
        self.meta.instrument.same(instrument)
    }

    fn same_key(&self, other: &Self) -> (r: bool) {
        self.meta.instrument.same(&other.meta.instrument)
    }
}

/// A position in a dated future.
#[derive(Debug, PartialEq, Eq)]
pub struct FuturesPosition {
    pub meta: PositionMeta,
}

impl Clone for FuturesPosition {
    fn clone(&self) -> (r: Self)
        ensures
            r == *self,
    {
        FuturesPosition { meta: self.meta.clone() }
    }
}

impl Held for FuturesPosition {
    open spec fn key(&self) -> InstrumentKey {
        self.meta.instrument@
    }

    fn holds(&self, instrument: &Instrument) -> (r: bool) {
        self.meta.instrument.same(instrument)
    }

    fn same_key(&self, other: &Self) -> (r: bool) {
        self.meta.instrument.same(&other.meta.instrument)
    }
}

/// A position in a leveraged token.
#[derive(Debug, PartialEq, Eq)]
pub struct LeveragedTokenPosition {
    pub meta: PositionMeta,
}

impl Clone for LeveragedTokenPosition {
    fn clone(&self) -> (r: Self)
        ensures
            r == *self,
    {
        LeveragedTokenPosition { meta: self.meta.clone() }
    }
}

impl Held for LeveragedTokenPosition {
    open spec fn key(&self) -> InstrumentKey {
        self.meta.instrument@
    }

    fn holds(&self, instrument: &Instrument) -> (r: bool) {
        self.meta.instrument.same(instrument)
    }

    fn same_key(&self, other: &Self) -> (r: bool) {
        self.meta.instrument.same(&other.meta.instrument)
    }
}

/// A position in an option.
#[derive(Debug, PartialEq, Eq)]
pub struct OptionPosition {
    pub meta: PositionMeta,
}

impl Clone for OptionPosition {
    fn clone(&self) -> (r: Self)
        ensures
            r == *self,
    {
        OptionPosition { meta: self.meta.clone() }
    }
}

impl Held for OptionPosition {
    open spec fn key(&self) -> InstrumentKey {
        self.meta.instrument@
    }

    fn holds(&self, instrument: &Instrument) -> (r: bool) {
        self.meta.instrument.same(instrument)
    }

    fn same_key(&self, other: &Self) -> (r: bool) {
        self.meta.instrument.same(&other.meta.instrument)
    }
}

/// A position of any kind.
#[derive(Debug, PartialEq, Eq)]
pub enum Position {
    Perpetual(PerpetualPosition),
    LeveragedToken(LeveragedTokenPosition),
    Future(FuturesPosition),
    Option(OptionPosition),
}

/// The positions that an account has left, in the order in which it left them.
#[derive(Debug, PartialEq, Eq)]
pub struct AccountClosedPositions {
    pub perpetual_pos_long: Vec<PerpetualPosition>,
    pub perpetual_pos_short: Vec<PerpetualPosition>,
}

impl Clone for AccountClosedPositions {
    fn clone(&self) -> (r: Self)
        ensures
            r.perpetual_pos_long@ == self.perpetual_pos_long@,
            r.perpetual_pos_short@ == self.perpetual_pos_short@,
    {
        let perpetual_pos_long = self.perpetual_pos_long.clone();
        let perpetual_pos_short = self.perpetual_pos_short.clone();
        AccountClosedPositions { perpetual_pos_long, perpetual_pos_short }
    }
}

impl AccountClosedPositions {
    /// A record without entries.
    pub fn init() -> (r: Self)
        ensures
            r.perpetual_pos_long@.len() == 0,
            r.perpetual_pos_short@.len() == 0,
    {
        AccountClosedPositions { perpetual_pos_long: Vec::new(), perpetual_pos_short: Vec::new() }
    }

    /// Records a long position that was closed.
    pub fn insert_perpetual_pos_long(&mut self, position: PerpetualPosition)
        ensures
            final(self).perpetual_pos_long@ == old(self).perpetual_pos_long@.push(position),
            final(self).perpetual_pos_short == old(self).perpetual_pos_short,
    {
        self.perpetual_pos_long.push(position);
    }

    /// Records a short position that was closed.
    pub fn insert_perpetual_pos_short(&mut self, position: PerpetualPosition)
        ensures
            final(self).perpetual_pos_short@ == old(self).perpetual_pos_short@.push(position),
            final(self).perpetual_pos_long == old(self).perpetual_pos_long,
    {
        self.perpetual_pos_short.push(position);
    }

    /// Records a closed position under the side it was held on.
    pub fn archive(&mut self, position: PerpetualPosition)
        ensures
            final(self).side(position.meta.side) == old(self).side(position.meta.side).push(position),
            final(self).side(position.meta.side.spec_opposite()) == old(self).side(
                position.meta.side.spec_opposite(),
            ),
    {
        match position.meta.side {
            Side::Buy => self.perpetual_pos_long.push(position),
            Side::Sell => self.perpetual_pos_short.push(position),
        }
    }

    /// The closed positions that were held on `side`.
    pub open spec fn side(&self, side: Side) -> Seq<PerpetualPosition> {
        match side {
            Side::Buy => self.perpetual_pos_long@,
            Side::Sell => self.perpetual_pos_short@,
        }
    }
}

/// The positions of an account: perpetuals by direction, the other kinds by kind.
#[derive(Debug, PartialEq, Eq)]
pub struct AccountPositions {
    pub margin_pos: Vec<LeveragedTokenPosition>,
    pub perpetual_pos_long: Vec<PerpetualPosition>,
    pub perpetual_pos_short: Vec<PerpetualPosition>,
    pub futures_pos: Vec<FuturesPosition>,
    pub option_pos: Vec<OptionPosition>,
}

/// The position that `trade` opens under `config`, as the account books it:
/// no margin set aside and no liquidation price yet.
pub open spec fn opened_position(config: AccountConfig, trade: ClientTrade, size: i64) -> PerpetualPosition {
    PerpetualPosition {
        meta: crate::position_meta::meta_from_trade(trade, size),
        pos_config: PerpetualPositionConfig {
            pos_margin_mode: config.position_margin_mode,
            leverage: config.account_leverage_rate,
            position_mode: config.position_direction_mode,
        },
        liquidation_price: 0,
        margin: 0,
    }
}

/// The margin that a trade of `size` at `price` ties up at `leverage`:
/// the notional divided by the leverage.
pub open spec fn initial_margin(price: int, size: int, leverage: int) -> int {
    scaled_div(scaled_mul(price, size), leverage)
}

/// The price at which the margin of a new position is used up: the entry
/// price lowered, for a long position, or raised, for a short one, by the
/// fraction that the margin is of the notional.
pub open spec fn liquidation_price(side: Side, price: int, size: int, leverage: int) -> int {
    let fraction = scaled_div(initial_margin(price, size, leverage), scaled_mul(price, size));
    match side {
        Side::Buy => scaled_mul(price, SCALE - fraction),
        Side::Sell => scaled_mul(price, SCALE + fraction),
    }
}

/// The fees that a new position starts with: maker fee, taker fee and
/// funding fee, each its rate times the notional.
pub open spec fn opening_fees(price: int, size: int, maker: int, taker: int, funding: int) -> int {
    let value = scaled_mul(price, size);
    scaled_mul(value, maker) + scaled_mul(value, taker) + scaled_mul(value, funding)
}

/// Every quantity of a new position for a trade of `size` at `price` can be
/// computed: leverage and notional are not zero and each step is representable.
pub open spec fn position_computable(
    side: Side,
    price: int,
    size: int,
    leverage: int,
    maker: int,
    taker: int,
    funding: int,
) -> bool {
    let value = scaled_mul(price, size);
    let margin = initial_margin(price, size, leverage);
    let fraction = scaled_div(margin, value);
    &&& fits_i64(value) && value != 0 && leverage != 0
    &&& fits_i64(margin)
    &&& fits_i64(fraction)
    &&& fits_i64(SCALE - fraction) && fits_i64(SCALE + fraction)
    &&& fits_i64(liquidation_price(side, price, size, leverage))
    &&& fits_i64(scaled_mul(value, maker)) && fits_i64(scaled_mul(value, taker)) && fits_i64(
        scaled_mul(value, funding),
    )
    &&& fits_i64(scaled_mul(value, maker) + scaled_mul(value, taker))
    &&& fits_i64(opening_fees(price, size, maker, taker, funding))
}

/// The perpetual position that `trade` opens at time `exchange_ts`, with its
/// margin, liquidation price and opening fees, under rates `maker` and `taker`.
pub open spec fn new_perpetual(
    config: AccountConfig,
    trade: ClientTrade,
    maker: i64,
    taker: i64,
    pos_margin_mode: PositionMarginMode,
    position_mode: PositionDirectionMode,
    exchange_ts: i64,
) -> PerpetualPosition {
    PerpetualPosition {
        meta: PositionMeta {
            position_id: PositionId { instrument: trade.instrument, timestamp: exchange_ts },
            enter_ts: exchange_ts,
            update_ts: exchange_ts,
            exchange: Exchange::SandBox,
            instrument: trade.instrument,
            side: trade.side,
            current_size: trade.size,
            current_fees_total: opening_fees(
                trade.price as int,
                trade.size as int,
                maker as int,
                taker as int,
                config.funding_rate as int,
            ) as i64,
            current_avg_price_gross: trade.price,
            current_symbol_price: trade.price,
            current_avg_price: trade.price,
            unrealised_pnl: 0,
            realised_pnl: 0,
        },
        pos_config: PerpetualPositionConfig {
            pos_margin_mode,
            leverage: config.account_leverage_rate,
            position_mode,
        },
        liquidation_price: liquidation_price(
            trade.side,
            trade.price as int,
            trade.size as int,
            config.account_leverage_rate as int,
        ) as i64,
        margin: initial_margin(trade.price as int, trade.size as int, config.account_leverage_rate as int) as i64,
    }
}

impl Clone for AccountPositions {
    fn clone(&self) -> (r: Self)
        ensures
            r.margin_pos@ == self.margin_pos@,
            r.perpetual_pos_long@ == self.perpetual_pos_long@,
            r.perpetual_pos_short@ == self.perpetual_pos_short@,
            r.futures_pos@ == self.futures_pos@,
            r.option_pos@ == self.option_pos@,
    {
        let margin_pos = self.margin_pos.clone();
        let perpetual_pos_long = self.perpetual_pos_long.clone();
        let perpetual_pos_short = self.perpetual_pos_short.clone();
        let futures_pos = self.futures_pos.clone();
        let option_pos = self.option_pos.clone();
        AccountPositions { margin_pos, perpetual_pos_long, perpetual_pos_short, futures_pos, option_pos }
    }
}

impl AccountPositions {
    /// No list holds an instrument twice, long positions are bought and short
    /// ones sold, and no perpetual position has a negative size.
    pub open spec fn wf(&self) -> bool {
        &&& distinct_keys(self.margin_pos@)
        &&& distinct_keys(self.perpetual_pos_long@)
        &&& distinct_keys(self.perpetual_pos_short@)
        &&& distinct_keys(self.futures_pos@)
        &&& distinct_keys(self.option_pos@)
        &&& forall|i: int|
            0 <= i < self.perpetual_pos_long@.len() ==> (#[trigger] self.perpetual_pos_long@[i]).meta.side
                == Side::Buy && self.perpetual_pos_long@[i].meta.current_size >= 0
        &&& forall|i: int|
            0 <= i < self.perpetual_pos_short@.len() ==> (#[trigger] self.perpetual_pos_short@[i]).meta.side
                == Side::Sell && self.perpetual_pos_short@[i].meta.current_size >= 0
    }

    /// Whether the store is well formed.
    pub fn is_wf(&self) -> (r: bool)
        ensures
            r == self.wf(),
    {
        check_distinct(&self.margin_pos) && check_distinct(&self.perpetual_pos_long) && check_distinct(
            &self.perpetual_pos_short,
        ) && check_distinct(&self.futures_pos) && check_distinct(&self.option_pos) && check_held_on(
            &self.perpetual_pos_long,
            Side::Buy,
        ) && check_held_on(&self.perpetual_pos_short, Side::Sell)
    }

    /// Whether no instrument is held both long and short.
    pub fn is_one_sided(&self) -> (r: bool)
        ensures
            r == self.one_sided(),
    {
        let mut i: usize = 0;
        while i < self.perpetual_pos_long.len()
            invariant
                i <= self.perpetual_pos_long@.len(),
                forall|k: int|
                    0 <= k < i ==> !holds_key(
                        self.perpetual_pos_short@,
                        (#[trigger] self.perpetual_pos_long@[k]).key(),
                    ),
            decreases self.perpetual_pos_long@.len() - i,
        {
            if find_held(&self.perpetual_pos_short, &self.perpetual_pos_long[i].meta.instrument).is_some() {
                proof {
                    let key = self.perpetual_pos_long@[i as int].key();
                    assert(self.has_long(key) && self.has_short(key));
                }
                return false;
            }
            i += 1;
        }
        proof {
            assert forall|key: InstrumentKey| !(#[trigger] self.has_long(key) && #[trigger] self.has_short(key)) by {
                if self.has_long(key) {
                    let p = choose|p: int|
                        0 <= p < self.perpetual_pos_long@.len() && (#[trigger] self.perpetual_pos_long@[p]).key()
                            == key;
                }
            }
        }
        true
    }

    /// The perpetual positions held on `side`.
    pub open spec fn perpetuals(&self, side: Side) -> Seq<PerpetualPosition> {
        match side {
            Side::Buy => self.perpetual_pos_long@,
            Side::Sell => self.perpetual_pos_short@,
        }
    }

    /// A long perpetual position is held under `key`.
    pub open spec fn has_long(&self, key: InstrumentKey) -> bool {
        holds_key(self.perpetual_pos_long@, key)
    }

    /// A short perpetual position is held under `key`.
    pub open spec fn has_short(&self, key: InstrumentKey) -> bool {
        holds_key(self.perpetual_pos_short@, key)
    }

    /// No instrument is held both long and short.
    pub open spec fn one_sided(&self) -> bool {
        forall|key: InstrumentKey| !(#[trigger] self.has_long(key) && #[trigger] self.has_short(key))
    }

    /// An order on `side` conflicts with the position held under `key`: a
    /// reduce-only order when a position is held on its own side, any other
    /// order when a position is held on the other side.
    pub open spec fn direction_conflict(&self, key: InstrumentKey, side: Side, reduce_only: bool) -> bool {
        if reduce_only {
            holds_key(self.perpetuals(side), key)
        } else {
            holds_key(self.perpetuals(side.spec_opposite()), key)
        }
    }

    /// Checks an order's side against the positions held in the instrument.
    /// `UnsupportedInstrumentKind` for an instrument that is not a perpetual,
    /// otherwise `InvalidDirection` exactly on a [`Self::direction_conflict`].
    pub fn check_position_direction_conflict(
        &self,
        instrument: &Instrument,
        new_order_side: Side,
        is_reduce_only: bool,
    ) -> (r: Result<(), ExchangeError>)
        ensures
            instrument.kind != InstrumentKind::Perpetual ==> r == Err::<(), ExchangeError>(
                ExchangeError::UnsupportedInstrumentKind,
            ),
            instrument.kind == InstrumentKind::Perpetual && self.direction_conflict(
                instrument@,
                new_order_side,
                is_reduce_only,
            ) ==> r == Err::<(), ExchangeError>(ExchangeError::InvalidDirection),
            instrument.kind == InstrumentKind::Perpetual && !self.direction_conflict(
                instrument@,
                new_order_side,
                is_reduce_only,
            ) ==> r is Ok,
    {
        if instrument.kind != InstrumentKind::Perpetual {
            return Err(ExchangeError::UnsupportedInstrumentKind);
        }
        let long_position_exists = self.has_long_position(instrument);
        let short_position_exists = self.has_short_position(instrument);
        let conflict = match (new_order_side, is_reduce_only) {
            (Side::Buy, true) => long_position_exists,
            (Side::Sell, true) => short_position_exists,
            (Side::Buy, false) => short_position_exists,
            (Side::Sell, false) => long_position_exists,
        };
        if conflict {
            Err(ExchangeError::InvalidDirection)
        } else {
            Ok(())
        }
    }

    /// A store without positions.
    pub fn init() -> (r: Self)
        ensures
            r.wf(),
            r.one_sided(),
            r.margin_pos@.len() == 0,
            r.perpetual_pos_long@.len() == 0,
            r.perpetual_pos_short@.len() == 0,
            r.futures_pos@.len() == 0,
            r.option_pos@.len() == 0,
    {
        AccountPositions {
            margin_pos: Vec::new(),
            perpetual_pos_long: Vec::new(),
            perpetual_pos_short: Vec::new(),
            futures_pos: Vec::new(),
            option_pos: Vec::new(),
        }
    }

    /// Whether a long perpetual position is held under `instrument`.
    pub fn has_long_position(&self, instrument: &Instrument) -> (r: bool)
        ensures
            r == self.has_long(instrument@),
    {
        find_held(&self.perpetual_pos_long, instrument).is_some()
    }

    /// Whether a short perpetual position is held under `instrument`.
    pub fn has_short_position(&self, instrument: &Instrument) -> (r: bool)
        ensures
            r == self.has_short(instrument@),
    {
        find_held(&self.perpetual_pos_short, instrument).is_some()
    }

    /// Whether any position is held under `instrument`, in the list of the
    /// instrument's kind. Kinds that have no positions hold none.
    pub fn has_position(&self, instrument: &Instrument) -> (r: bool)
        ensures
            r == match instrument.kind {
                InstrumentKind::Perpetual => self.has_long(instrument@) || self.has_short(instrument@),
                InstrumentKind::Future => holds_key(self.futures_pos@, instrument@),
                InstrumentKind::CryptoOption => holds_key(self.option_pos@, instrument@),
                InstrumentKind::CryptoLeveragedToken => holds_key(self.margin_pos@, instrument@),
                _ => false,
            },
    {
        match instrument.kind {
            InstrumentKind::Perpetual => self.has_long_position(instrument) || self.has_short_position(instrument),
            InstrumentKind::Future => find_held(&self.futures_pos, instrument).is_some(),
            InstrumentKind::CryptoOption => find_held(&self.option_pos, instrument).is_some(),
            InstrumentKind::CryptoLeveragedToken => find_held(&self.margin_pos, instrument).is_some(),
            _ => false,
        }
    }

    /// A copy of the perpetual position held on `side` under `instrument`.
    pub fn get_perpetual(&self, side: Side, instrument: &Instrument) -> (r: Option<PerpetualPosition>)
        ensures
            holds_key(self.perpetuals(side), instrument@) ==> r is Some && r->Some_0.key() == instrument@ && (
            self.wf() ==> r == Some(held(self.perpetuals(side), instrument@))),
            !holds_key(self.perpetuals(side), instrument@) ==> r is None,
    {
        match side {
            Side::Buy => match find_held(&self.perpetual_pos_long, instrument) {
                Some(i) => Some(self.perpetual_pos_long[i].clone()),
                None => None,
            },
            Side::Sell => match find_held(&self.perpetual_pos_short, instrument) {
                Some(i) => Some(self.perpetual_pos_short[i].clone()),
                None => None,
            },
        }
    }

    /// Puts a perpetual position under its instrument on the side that its own
    /// side names, in place of the one held there or as a new one.
    pub fn upsert_perpetual(&mut self, position: PerpetualPosition)
        requires
            old(self).wf(),
            position.meta.current_size >= 0,
        ensures
            final(self).wf(),
            upserted(old(self).perpetuals(position.meta.side), final(self).perpetuals(position.meta.side), position),
            final(self).perpetuals(position.meta.side.spec_opposite()) == old(self).perpetuals(
                position.meta.side.spec_opposite(),
            ),
            final(self).margin_pos == old(self).margin_pos,
            final(self).futures_pos == old(self).futures_pos,
            final(self).option_pos == old(self).option_pos,
    {
        let instrument = position.meta.instrument.clone();
        match position.meta.side {
            Side::Buy => {
                upsert_held(&mut self.perpetual_pos_long, &instrument, position);
            },
            Side::Sell => {
                upsert_held(&mut self.perpetual_pos_short, &instrument, position);
            },
        }
        proof {
            let before = old(self).perpetuals(position.meta.side);
            let after = self.perpetuals(position.meta.side);
            assert forall|i: int| 0 <= i < after.len() implies (#[trigger] after[i]).meta.side
                == position.meta.side && after[i].meta.current_size >= 0 by {
                if holds_key(before, position.key()) {
                    let p = place_of(before, position.key());
                    if i != p {
                        assert(after[i] == before[i]);
                    }
                } else {
                    if i < before.len() {
                        assert(after[i] == before[i]);
                    }
                }
            }
        }
    }

    /// Takes the perpetual position held on `side` under `instrument` out of
    /// the store and returns it.
    pub fn remove_perpetual(&mut self, side: Side, instrument: &Instrument) -> (r: Option<PerpetualPosition>)
        requires
            old(self).wf(),
        ensures
            final(self).wf(),
            removed(old(self).perpetuals(side), final(self).perpetuals(side), instrument@),
            holds_key(old(self).perpetuals(side), instrument@) ==> r == Some(
                held(old(self).perpetuals(side), instrument@),
            ),
            !holds_key(old(self).perpetuals(side), instrument@) ==> r is None,
            final(self).perpetuals(side.spec_opposite()) == old(self).perpetuals(side.spec_opposite()),
            final(self).margin_pos == old(self).margin_pos,
            final(self).futures_pos == old(self).futures_pos,
            final(self).option_pos == old(self).option_pos,
    {
        let taken = match side {
            Side::Buy => remove_held(&mut self.perpetual_pos_long, instrument),
            Side::Sell => remove_held(&mut self.perpetual_pos_short, instrument),
        };
        proof {
            let before = old(self).perpetuals(side);
            let after = self.perpetuals(side);
            if holds_key(before, instrument@) {
                let p = place_of(before, instrument@);
                assert forall|i: int| 0 <= i < after.len() implies (#[trigger] after[i]).meta.side == side
                    && after[i].meta.current_size >= 0 by {
                    let oi = if i < p { i } else { i + 1 };
                    assert(after[i] == before[oi]);
                }
            }
        }
        taken
    }

    /// Puts a position into the list of its kind, under its instrument: in
    /// place of the one held there or as a new one. A perpetual position goes to
    /// the side that its own side names.
    pub fn update_position(&mut self, new_position: Position)
        requires
            old(self).wf(),
            new_position matches Position::Perpetual(p) ==> p.meta.current_size >= 0,
        ensures
            final(self).wf(),
            match new_position {
                Position::Perpetual(p) => {
                    &&& upserted(old(self).perpetuals(p.meta.side), final(self).perpetuals(p.meta.side), p)
                    &&& final(self).perpetuals(p.meta.side.spec_opposite()) == old(self).perpetuals(
                        p.meta.side.spec_opposite(),
                    )
                    &&& final(self).margin_pos == old(self).margin_pos
                    &&& final(self).futures_pos == old(self).futures_pos
                    &&& final(self).option_pos == old(self).option_pos
                },
                Position::LeveragedToken(p) => {
                    &&& upserted(old(self).margin_pos@, final(self).margin_pos@, p)
                    &&& final(self).perpetual_pos_long == old(self).perpetual_pos_long
                    &&& final(self).perpetual_pos_short == old(self).perpetual_pos_short
                    &&& final(self).futures_pos == old(self).futures_pos
                    &&& final(self).option_pos == old(self).option_pos
                },
                Position::Future(p) => {
                    &&& upserted(old(self).futures_pos@, final(self).futures_pos@, p)
                    &&& final(self).perpetual_pos_long == old(self).perpetual_pos_long
                    &&& final(self).perpetual_pos_short == old(self).perpetual_pos_short
                    &&& final(self).margin_pos == old(self).margin_pos
                    &&& final(self).option_pos == old(self).option_pos
                },
                Position::Option(p) => {
                    &&& upserted(old(self).option_pos@, final(self).option_pos@, p)
                    &&& final(self).perpetual_pos_long == old(self).perpetual_pos_long
                    &&& final(self).perpetual_pos_short == old(self).perpetual_pos_short
                    &&& final(self).margin_pos == old(self).margin_pos
                    &&& final(self).futures_pos == old(self).futures_pos
                },
            },
    {
        match new_position {
            Position::Perpetual(p) => {
                self.upsert_perpetual(p);
            },
            Position::LeveragedToken(p) => {
                let instrument = p.meta.instrument.clone();
                upsert_held(&mut self.margin_pos, &instrument, p);
            },
            Position::Future(p) => {
                let instrument = p.meta.instrument.clone();
                upsert_held(&mut self.futures_pos, &instrument, p);
            },
            Position::Option(p) => {
                let instrument = p.meta.instrument.clone();
                upsert_held(&mut self.option_pos, &instrument, p);
            },
        }
    }

    /// Builds the perpetual position that `trade` opens at time `exchange_ts`:
    /// margin is the notional divided by the account's leverage, the fees are
    /// the maker, taker and funding fee on the notional, and the liquidation
    /// price is the entry price moved against the position by the margin's share
    /// of the notional.
    ///
    /// `UnsupportedInstrumentKind` when the configuration has no rates for the
    /// instrument's kind; otherwise `InternalError` exactly when a quantity
    /// cannot be computed.
    pub fn build_new_perpetual_position(
        &self,
        config: &AccountConfig,
        trade: &ClientTrade,
        pos_margin_mode: PositionMarginMode,
        position_mode: PositionDirectionMode,
        exchange_ts: i64,
    ) -> (r: Result<PerpetualPosition, ExchangeError>)
        ensures
            match config.rates(trade.instrument.kind) {
                None => r == Err::<PerpetualPosition, ExchangeError>(ExchangeError::UnsupportedInstrumentKind),
                Some(rates) => if position_computable(
                    trade.side,
                    trade.price as int,
                    trade.size as int,
                    config.account_leverage_rate as int,
                    rates.maker_fees as int,
                    rates.taker_fees as int,
                    config.funding_rate as int,
                ) {
                    r == Ok::<PerpetualPosition, ExchangeError>(
                        new_perpetual(
                            *config,
                            *trade,
                            rates.maker_fees,
                            rates.taker_fees,
                            pos_margin_mode,
                            position_mode,
                            exchange_ts,
                        ),
                    )
                } else {
                    r is Err && is_out_of_range(r->Err_0)
                },
            },
    {
        let rates = match config.commission_rates(trade.instrument.kind) {
            Ok(rates) => rates,
            Err(e) => {
                return Err(e);
            },
        };
        match compute_opening(
            trade.side,
            trade.price,
            trade.size,
            config.account_leverage_rate,
            rates.maker_fees,
            rates.taker_fees,
            config.funding_rate,
        ) {
            None => Err(out_of_range()),
            Some((margin, liquidation, fees)) => Ok(
                PerpetualPosition {
                    meta: PositionMeta {
                        position_id: PositionId::new(&trade.instrument, exchange_ts),
                        enter_ts: exchange_ts,
                        update_ts: exchange_ts,
                        exchange: Exchange::SandBox,
                        instrument: trade.instrument.clone(),
                        side: trade.side,
                        current_size: trade.size,
                        current_fees_total: fees,
                        current_avg_price_gross: trade.price,
                        current_symbol_price: trade.price,
                        current_avg_price: trade.price,
                        unrealised_pnl: 0,
                        realised_pnl: 0,
                    },
                    pos_config: PerpetualPositionConfig {
                        pos_margin_mode,
                        leverage: config.account_leverage_rate,
                        position_mode,
                    },
                    liquidation_price: liquidation,
                    margin,
                },
            ),
        }
    }
}

/// Margin, liquidation price and opening fees of a new position; `None` when
/// they are not [`position_computable`].
pub fn compute_opening(side: Side, price: i64, size: i64, leverage: i64, maker: i64, taker: i64, funding: i64) -> (r:
    Option<(i64, i64, i64)>)
    ensures
        position_computable(
            side,
            price as int,
            size as int,
            leverage as int,
            maker as int,
            taker as int,
            funding as int,
        ) ==> r == Some(
            (
                initial_margin(price as int, size as int, leverage as int) as i64,
                liquidation_price(side, price as int, size as int, leverage as int) as i64,
                opening_fees(price as int, size as int, maker as int, taker as int, funding as int) as i64,
            ),
        ),
        !position_computable(
            side,
            price as int,
            size as int,
            leverage as int,
            maker as int,
            taker as int,
            funding as int,
        ) ==> r is None,
{
    let value = match mul_fixed(price, size) {
        Some(v) => v,
        None => {
            return None;
        },
    };
    if value == 0 || leverage == 0 {
        return None;
    }
    let margin = match div_fixed(value, leverage) {
        Some(v) => v,
        None => {
            return None;
        },
    };
    let fraction = match div_fixed(margin, value) {
        Some(v) => v,
        None => {
            return None;
        },
    };
    let lower = match sub_fixed(SCALE, fraction) {
        Some(v) => v,
        None => {
            return None;
        },
    };
    let upper = match add_fixed(SCALE, fraction) {
        Some(v) => v,
        None => {
            return None;
        },
    };
    let liquidation = match mul_fixed(
        price,
        match side {
            Side::Buy => lower,
            Side::Sell => upper,
        },
    ) {
        Some(v) => v,
        None => {
            return None;
        },
    };
    let maker_fee = match mul_fixed(value, maker) {
        Some(v) => v,
        None => {
            return None;
        },
    };
    let taker_fee = match mul_fixed(value, taker) {
        Some(v) => v,
        None => {
            return None;
        },
    };
    let funding_fee = match mul_fixed(value, funding) {
        Some(v) => v,
        None => {
            return None;
        },
    };
    let both = match add_fixed(maker_fee, taker_fee) {
        Some(v) => v,
        None => {
            return None;
        },
    };
    let fees = match add_fixed(both, funding_fee) {
        Some(v) => v,
        None => {
            return None;
        },
    };
    Some((margin, liquidation, fees))
}

/// The perpetual positions of an account, held and closed, as contracts speak of them.
pub struct Holdings {
    pub long: Seq<PerpetualPosition>,
    pub short: Seq<PerpetualPosition>,
    pub closed_long: Seq<PerpetualPosition>,
    pub closed_short: Seq<PerpetualPosition>,
}

impl Holdings {
    /// The positions held on `side`.
    pub open spec fn held_on(self, side: Side) -> Seq<PerpetualPosition> {
        match side {
            Side::Buy => self.long,
            Side::Sell => self.short,
        }
    }

    /// These holdings with `list` as the positions held on `side`.
    pub open spec fn with_held(self, side: Side, list: Seq<PerpetualPosition>) -> Holdings {
        match side {
            Side::Buy => Holdings { long: list, ..self },
            Side::Sell => Holdings { short: list, ..self },
        }
    }

    /// These holdings with `position` added to the closed positions of `side`.
    pub open spec fn with_closed(self, side: Side, position: PerpetualPosition) -> Holdings {
        match side {
            Side::Buy => Holdings { closed_long: self.closed_long.push(position), ..self },
            Side::Sell => Holdings { closed_short: self.closed_short.push(position), ..self },
        }
    }

    /// No list holds an instrument twice, held positions are on their side
    /// and none has a negative size.
    pub open spec fn wf(self) -> bool {
        &&& distinct_keys(self.long)
        &&& distinct_keys(self.short)
        &&& forall|i: int|
            0 <= i < self.long.len() ==> (#[trigger] self.long[i]).meta.side == Side::Buy
                && self.long[i].meta.current_size >= 0
        &&& forall|i: int|
            0 <= i < self.short.len() ==> (#[trigger] self.short[i]).meta.side == Side::Sell
                && self.short[i].meta.current_size >= 0
    }

    /// No instrument is held both long and short.
    pub open spec fn one_sided(self) -> bool {
        forall|key: InstrumentKey| !(#[trigger] holds_key(self.long, key) && #[trigger] holds_key(self.short, key))
    }
}

/// `position` with its aggregates replaced by `meta`.
pub open spec fn with_meta(position: PerpetualPosition, meta: PositionMeta) -> PerpetualPosition {
    PerpetualPosition { meta, ..position }
}

/// What a trade does to the positions when long and short positions are
/// booked apart: a position held on the trade's side takes the trade, and
/// without one the trade opens a position on its side. `None` when the trade
/// has a negative size or the position cannot take it.
pub open spec fn long_short_update(h: Holdings, config: AccountConfig, trade: ClientTrade) -> Option<Holdings> {
    let key = trade.instrument@;
    let same = h.held_on(trade.side);
    if trade.size < 0 {
        None
    } else if holds_key(same, key) {
        let position = held(same, key);
        if position.meta.takes(trade) {
            Some(h.with_held(trade.side, upsert(same, with_meta(position, position.meta.after_trade(trade)))))
        } else {
            None
        }
    } else {
        Some(h.with_held(trade.side, upsert(same, opened_position(config, trade, trade.size))))
    }
}

/// What a trade does to the positions when an instrument is held on one
/// side only.
///
/// A position on the trade's side takes the trade. A position on the other
/// side is reduced by a smaller trade; it is closed at the trade's price,
/// recorded and removed by a trade of its size or more, and what a larger
/// trade has left opens a position on the trade's side. Without a position the
/// trade opens one. `None` when the trade has a negative size or a new value
/// is not representable.
pub open spec fn net_update(h: Holdings, config: AccountConfig, trade: ClientTrade) -> Option<Holdings> {
    let key = trade.instrument@;
    let side = trade.side;
    let other = trade.side.spec_opposite();
    let same = h.held_on(side);
    let opposite = h.held_on(other);
    if trade.size < 0 {
        None
    } else if holds_key(same, key) {
        long_short_update(h, config, trade)
    } else if holds_key(opposite, key) {
        let position = held(opposite, key);
        let size = position.meta.current_size;
        if trade.size < size {
            Some(
                h.with_held(
                    other,
                    upsert(
                        opposite,
                        with_meta(position, PositionMeta { current_size: (size - trade.size) as i64, ..position.meta }),
                    ),
                ),
            )
        } else if !position.meta.realised_representable(trade.price) {
            None
        } else {
            let closed = h.with_held(other, without(opposite, key)).with_closed(
                other,
                with_meta(position, position.meta.closed_at(trade.price)),
            );
            if trade.size == size {
                Some(closed)
            } else {
                Some(closed.with_held(side, upsert(same, opened_position(config, trade, (trade.size - size) as i64))))
            }
        }
    } else {
        Some(h.with_held(side, upsert(same, opened_position(config, trade, trade.size))))
    }
}

/// What a trade does to the positions under the configured direction mode.
pub open spec fn position_update(h: Holdings, config: AccountConfig, trade: ClientTrade) -> Option<Holdings> {
    match config.position_direction_mode {
        PositionDirectionMode::Net => net_update(h, config, trade),
        PositionDirectionMode::LongShort => long_short_update(h, config, trade),
    }
}

/// Putting a position on its own side, with a size that is not negative,
/// keeps the holdings well formed; and the instruments held on that side are
/// those held before and the position's own.
pub proof fn lemma_put_position(h: Holdings, position: PerpetualPosition)
    requires
        h.wf(),
        position.meta.current_size >= 0,
    ensures
        h.with_held(position.meta.side, upsert(h.held_on(position.meta.side), position)).wf(),
        upserted(h.held_on(position.meta.side), upsert(h.held_on(position.meta.side), position), position),
{
    let side = position.meta.side;
    let before = h.held_on(side);
    let after = upsert(before, position);
    if holds_key(before, position.key()) {
        let p = place_of(before, position.key());
        lemma_update_upserts(before, p, position);
        assert forall|i: int| 0 <= i < after.len() implies (#[trigger] after[i]).meta.side == side
            && after[i].meta.current_size >= 0 by {
            if i != p {
                assert(after[i] == before[i]);
            }
        }
    } else {
        lemma_push_upserts(before, position);
        assert forall|i: int| 0 <= i < after.len() implies (#[trigger] after[i]).meta.side == side
            && after[i].meta.current_size >= 0 by {
            if i < before.len() {
                assert(after[i] == before[i]);
            }
        }
    }
}

/// Taking the position under `key` off `side` keeps the holdings well formed;
/// and the instruments held on that side are those held before but `key`.
pub proof fn lemma_take_position(h: Holdings, side: Side, key: InstrumentKey)
    requires
        h.wf(),
    ensures
        h.with_held(side, without(h.held_on(side), key)).wf(),
        removed(h.held_on(side), without(h.held_on(side), key), key),
{
    let before = h.held_on(side);
    let after = without(before, key);
    if holds_key(before, key) {
        let p = place_of(before, key);
        lemma_place(before, p);
        lemma_remove_removes(before, p);
        assert forall|i: int| 0 <= i < after.len() implies (#[trigger] after[i]).meta.side == side
            && after[i].meta.current_size >= 0 by {
            let oi = if i < p { i } else { i + 1 };
            assert(after[i] == before[oi]);
        }
    }
}

/// A trade booked with long and short apart keeps the holdings well formed.
pub proof fn lemma_long_short_update_wf(h: Holdings, config: AccountConfig, trade: ClientTrade)
    requires
        h.wf(),
        long_short_update(h, config, trade) is Some,
    ensures
        long_short_update(h, config, trade)->Some_0.wf(),
        long_short_update(h, config, trade)->Some_0.held_on(trade.side.spec_opposite()) == h.held_on(
            trade.side.spec_opposite(),
        ),
        forall|k: InstrumentKey|
            k != trade.instrument@ ==> (#[trigger] holds_key(
                long_short_update(h, config, trade)->Some_0.held_on(trade.side),
                k,
            ) <==> holds_key(h.held_on(trade.side), k)),
        holds_key(long_short_update(h, config, trade)->Some_0.held_on(trade.side), trade.instrument@),
{
    let key = trade.instrument@;
    let same = h.held_on(trade.side);
    if holds_key(same, key) {
        let position = held(same, key);
        lemma_put_position(h, with_meta(position, position.meta.after_trade(trade)));
    } else {
        lemma_put_position(h, opened_position(config, trade, trade.size));
    }
}

/// Under the net direction mode no trade makes an instrument held both long
/// and short: holdings that are well formed and one-sided stay so.
pub proof fn lemma_net_update_one_sided(h: Holdings, config: AccountConfig, trade: ClientTrade)
    requires
        h.wf(),
        h.one_sided(),
        net_update(h, config, trade) is Some,
    ensures
        net_update(h, config, trade)->Some_0.wf(),
        net_update(h, config, trade)->Some_0.one_sided(),
{
    let key = trade.instrument@;
    let side = trade.side;
    let other = trade.side.spec_opposite();
    let same = h.held_on(side);
    let opposite = h.held_on(other);
    let next = net_update(h, config, trade)->Some_0;
    if holds_key(same, key) {
        lemma_long_short_update_wf(h, config, trade);
        assert(!holds_key(opposite, key)) by {
            assert(!(holds_key(h.long, key) && holds_key(h.short, key)));
        }
        assert forall|k: InstrumentKey| !(#[trigger] holds_key(next.long, k) && #[trigger] holds_key(
            next.short,
            k,
        )) by {
            if k != key {
                assert(holds_key(next.held_on(side), k) <==> holds_key(same, k));
            }
        }
    } else if holds_key(opposite, key) {
        let position = held(opposite, key);
        let size = position.meta.current_size;
        if trade.size < size {
            let reduced = with_meta(
                position,
                PositionMeta { current_size: (size - trade.size) as i64, ..position.meta },
            );
            lemma_put_position(h, reduced);
            assert forall|k: InstrumentKey| !(#[trigger] holds_key(next.long, k) && #[trigger] holds_key(
                next.short,
                k,
            )) by {
                if k != key {
                    assert(holds_key(next.held_on(other), k) <==> holds_key(opposite, k));
                }
            }
        } else {
            lemma_take_position(h, other, key);
            let taken = h.with_held(other, without(opposite, key));
            let closed = taken.with_closed(other, with_meta(position, position.meta.closed_at(trade.price)));
            if trade.size == size {
                assert forall|k: InstrumentKey| !(#[trigger] holds_key(next.long, k) && #[trigger] holds_key(
                    next.short,
                    k,
                )) by {
                    if k != key {
                        assert(holds_key(next.held_on(other), k) <==> holds_key(opposite, k));
                    }
                }
            } else {
                let fresh = opened_position(config, trade, (trade.size - size) as i64);
                lemma_put_position(closed, fresh);
                assert forall|k: InstrumentKey| !(#[trigger] holds_key(next.long, k) && #[trigger] holds_key(
                    next.short,
                    k,
                )) by {
                    if k != key {
                        assert(holds_key(next.held_on(other), k) <==> holds_key(opposite, k));
                    }
                }
            }
        }
    } else {
        lemma_put_position(h, opened_position(config, trade, trade.size));
        assert forall|k: InstrumentKey| !(#[trigger] holds_key(next.long, k) && #[trigger] holds_key(
            next.short,
            k,
        )) by {
            if k != key {
                assert(holds_key(next.held_on(side), k) <==> holds_key(same, k));
            }
        }
    }
}

/// A trade booked under the net direction mode keeps the holdings well formed,
/// whether or not they were one-sided.
pub proof fn lemma_net_update_wf(h: Holdings, config: AccountConfig, trade: ClientTrade)
    requires
        h.wf(),
        net_update(h, config, trade) is Some,
    ensures
        net_update(h, config, trade)->Some_0.wf(),
{
    let key = trade.instrument@;
    let side = trade.side;
    let other = trade.side.spec_opposite();
    let same = h.held_on(side);
    let opposite = h.held_on(other);
    if holds_key(same, key) {
        lemma_long_short_update_wf(h, config, trade);
    } else if holds_key(opposite, key) {
        let position = held(opposite, key);
        let size = position.meta.current_size;
        if trade.size < size {
            lemma_put_position(
                h,
                with_meta(position, PositionMeta { current_size: (size - trade.size) as i64, ..position.meta }),
            );
        } else {
            lemma_take_position(h, other, key);
            let closed = h.with_held(other, without(opposite, key)).with_closed(
                other,
                with_meta(position, position.meta.closed_at(trade.price)),
            );
            if trade.size > size {
                lemma_put_position(closed, opened_position(config, trade, (trade.size - size) as i64));
            }
        }
    } else {
        lemma_put_position(h, opened_position(config, trade, trade.size));
    }
}

} // verus!
