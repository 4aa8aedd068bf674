//! The order books of an account, one per instrument, and its latency model.
use vstd::prelude::*;
use crate::error::ExchangeError;
use crate::fixed::{add_fixed, fits_i64};
use crate::instrument::{Instrument, InstrumentKey};
use crate::order::{Open, Order, OrderRole, RequestOpen};
use crate::orderbook::{determine_role, post_only_violation, role_for, InstrumentOrders};
use vstd::string::StringExecFns;

verus! {

/// How the simulated latency moves between its bounds.
#[derive(Clone, Copy, Debug, PartialEq, Eq, Hash, Structural)]
pub enum FluctuationMode {
    Steady,
    Sine,
    Cosine,
    NormalDistribution,
    Uniform,
    Exponential,
}

/// The simulated delay, in the unit of order timestamps, between a request
/// and its admission.
#[derive(Clone, Copy, Debug, PartialEq, Eq, Structural)]
pub struct AccountLatency {
    pub fluctuation_mode: FluctuationMode,
    pub maximum: i64,
    pub minimum: i64,
    pub current_value: i64,
}

/// The timestamp of a request delayed by `latency`; unchanged when the sum
/// is not representable.
pub open spec fn delayed(timestamp: i64, latency: i64) -> i64 {
    if fits_i64(timestamp + latency) {
        (timestamp + latency) as i64
    } else {
        timestamp
    }
}

/// The book of one instrument.
#[derive(Debug, PartialEq, Eq)]
pub struct InstrumentBook {
    pub instrument: Instrument,
    pub orders: InstrumentOrders,
}

/// Two books of one instrument with the same counter and the same orders.
pub open spec fn same_book(a: InstrumentBook, b: InstrumentBook) -> bool {
    &&& a.instrument == b.instrument
    &&& a.orders.batch_id == b.orders.batch_id
    &&& a.orders.bids@ == b.orders.bids@
    &&& a.orders.asks@ == b.orders.asks@
}

impl Clone for InstrumentBook {
    fn clone(&self) -> (r: Self)
        ensures
            same_book(*self, r),
    {
        InstrumentBook { instrument: self.instrument.clone(), orders: self.orders.clone() }
    }
}

/// The resting orders of the first `n` books, book by book, bids before asks.
pub open spec fn resting_orders(books: Seq<InstrumentBook>, n: int) -> Seq<Order<Open>>
    decreases n,
{
    if n <= 0 {
        Seq::empty()
    } else {
        resting_orders(books, n - 1) + books[n - 1].orders.all()
    }
}

/// All order books of an account.
#[derive(Debug, PartialEq, Eq)]
pub struct AccountOrders {
    pub latency: AccountLatency,
    pub books: Vec<InstrumentBook>,
}

/// Two sets of books with the same latency and, place by place, the same books.
pub open spec fn same_books(a: AccountOrders, b: AccountOrders) -> bool {
    &&& a.latency == b.latency
    &&& a.books@.len() == b.books@.len()
    &&& forall|i: int| 0 <= i < a.books@.len() ==> same_book(#[trigger] a.books@[i], b.books@[i])
}

impl Clone for AccountOrders {
    fn clone(&self) -> (r: Self)
        ensures
            same_books(*self, r),
            self.wf() ==> r.wf(),
    {
        let mut books: Vec<InstrumentBook> = Vec::new();
        let mut i: usize = 0;
        while i < self.books.len()
            invariant
                i <= self.books@.len(),
                books@.len() == i,
                forall|k: int| 0 <= k < i ==> same_book(#[trigger] self.books@[k], books@[k]),
            decreases self.books@.len() - i,
        {
            books.push(self.books[i].clone());
            i += 1;
        }
        let copy = AccountOrders { latency: self.latency, books };
        proof {
            if self.wf() {
                assert forall|k: int| 0 <= k < copy.books@.len() implies (#[trigger] copy.books@[k]).orders.wf() by {
                    assert(same_book(self.books@[k], copy.books@[k]));
                }
                assert forall|k: int, j: int| 0 <= k < j < copy.books@.len() implies (
                #[trigger] copy.books@[k]).instrument@ != (#[trigger] copy.books@[j]).instrument@ by {
                    assert(same_book(self.books@[k], copy.books@[k]));
                    assert(same_book(self.books@[j], copy.books@[j]));
                }
            }
        }
        copy
    }
}

impl AccountOrders {
    /// Every book is well formed and no instrument has two books.
    pub open spec fn wf(&self) -> bool {
        &&& forall|i: int| 0 <= i < self.books@.len() ==> (#[trigger] self.books@[i]).orders.wf()
        &&& forall|i: int, j: int|
            0 <= i < j < self.books@.len() ==> (#[trigger] self.books@[i]).instrument@ != (
            #[trigger] self.books@[j]).instrument@
    }

    /// Whether the books are well formed.
    pub fn is_wf(&self) -> (r: bool)
        ensures
            r == self.wf(),
    {
        let mut i: usize = 0;
        while i < self.books.len()
            invariant
                i <= self.books@.len(),
                forall|k: int| 0 <= k < i ==> (#[trigger] self.books@[k]).orders.wf(),
                forall|a: int, b: int|
                    0 <= a < b < i ==> (#[trigger] self.books@[a]).instrument@ != (
                    #[trigger] self.books@[b]).instrument@,
            decreases self.books@.len() - i,
        {
            if !self.books[i].orders.is_wf() {
                return false;
            }
            let mut j: usize = 0;
            while j < i
                invariant
                    i < self.books@.len(),
                    j <= i,
                    forall|a: int|
                        0 <= a < j ==> (#[trigger] self.books@[a]).instrument@ != self.books@[i as int].instrument@,
                decreases i - j,
            {
                if self.books[j].instrument.same(&self.books[i].instrument) {
                    return false;
                }
                j += 1;
            }
            i += 1;
        }
        true
    }

    /// The account has a book for the instrument `key`.
    pub open spec fn has_book(&self, key: InstrumentKey) -> bool {
        exists|i: int| 0 <= i < self.books@.len() && (#[trigger] self.books@[i]).instrument@ == key
    }

    /// The place of the book of `key`, for an instrument that has one.
    pub open spec fn slot(&self, key: InstrumentKey) -> int {
        choose|i: int| 0 <= i < self.books@.len() && (#[trigger] self.books@[i]).instrument@ == key
    }

    /// The book of `key`, for an instrument that has one.
    pub open spec fn book(&self, key: InstrumentKey) -> InstrumentOrders {
        self.books@[self.slot(key)].orders
    }

    /// In a well-formed account the book of an instrument is the only one that carries it.
    pub proof fn lemma_slot(&self, i: int)
        requires
            self.wf(),
            0 <= i < self.books@.len(),
        ensures
            self.has_book(self.books@[i].instrument@),
            self.slot(self.books@[i].instrument@) == i,
    {
        let key = self.books@[i].instrument@;
        let s = self.slot(key);
        if s < i {
            assert(self.books@[s].instrument@ != self.books@[i].instrument@);
        } else if i < s {
            assert(self.books@[i].instrument@ != self.books@[s].instrument@);
        }
    }

    /// One empty book for each of the instruments, an instrument that occurs
    /// again being passed over.
    pub fn new(instruments: Vec<Instrument>, latency: AccountLatency) -> (r: Self)
        ensures
            r.wf(),
            r.latency == latency,
            forall|key: InstrumentKey|
                r.has_book(key) <==> exists|i: int|
                    0 <= i < instruments@.len() && (#[trigger] instruments@[i])@ == key,
            forall|i: int|
                0 <= i < r.books@.len() ==> (#[trigger] r.books@[i]).orders.batch_id == 1
                    && r.books@[i].orders.all().len() == 0,
    {
        let mut account = AccountOrders { latency, books: Vec::new() };
        let mut i: usize = 0;
        while i < instruments.len()
            invariant
                i <= instruments@.len(),
                account.wf(),
                account.latency == latency,
                forall|key: InstrumentKey|
                    account.has_book(key) <==> exists|k: int| 0 <= k < i && (#[trigger] instruments@[k])@ == key,
                forall|k: int|
                    0 <= k < account.books@.len() ==> (#[trigger] account.books@[k]).orders.batch_id == 1
                        && account.books@[k].orders.all().len() == 0,
            decreases instruments@.len() - i,
        {
            let ghost before = account;
            let found = account.position_of(&instruments[i]);
            let ghost key_i = instruments@[i as int]@;
            if found.is_none() {
                let book = InstrumentBook { instrument: instruments[i].clone(), orders: InstrumentOrders::new() };
                account.books.push(book);
                assert(account.books@[account.books@.len() - 1].instrument@ == key_i);
                assert(forall|k: int| 0 <= k < before.books@.len() ==> account.books@[k] == before.books@[k]);
            }
            proof {
                assert forall|key: InstrumentKey|
                    account.has_book(key) <==> exists|k: int|
                        0 <= k < i + 1 && (#[trigger] instruments@[k])@ == key by {
                    if account.has_book(key) {
                        let s = choose|s: int|
                            0 <= s < account.books@.len() && (#[trigger] account.books@[s]).instrument@ == key;
                        if s < before.books@.len() {
                            assert(before.books@[s].instrument@ == key);
                            assert(before.has_book(key));
                            let k = choose|k: int| 0 <= k < i && (#[trigger] instruments@[k])@ == key;
                            assert(0 <= k < i + 1 && instruments@[k]@ == key);
                        } else {
                            assert(instruments@[i as int]@ == key);
                        }
                    }
                    if exists|k: int| 0 <= k < i + 1 && (#[trigger] instruments@[k])@ == key {
                        let k = choose|k: int| 0 <= k < i + 1 && (#[trigger] instruments@[k])@ == key;
                        if k < i {
                            assert(before.has_book(key));
                            let s = choose|s: int|
                                0 <= s < before.books@.len() && (#[trigger] before.books@[s]).instrument@ == key;
                            assert(account.books@[s].instrument@ == key);
                        } else {
                            if found is None {
                                assert(account.books@[account.books@.len() - 1].instrument@ == key);
                            } else {
                                assert(account.books@[found->Some_0 as int].instrument@ == key);
                            }
                        }
                    }
                }
            }
            i += 1;
        }
        account
    }

    /// The place of the book of `instrument`; `None` when the account has no
    /// book for it.
    pub fn position_of(&self, instrument: &Instrument) -> (r: Option<usize>)
        ensures
            match r {
                Some(i) => i < self.books@.len() && self.books@[i as int].instrument@ == instrument@
                    && self.has_book(instrument@) && (self.wf() ==> self.slot(instrument@) == i),
                None => !self.has_book(instrument@),
            },
    {
        let mut i: usize = 0;
        while i < self.books.len()
            invariant
                i <= self.books@.len(),
                forall|k: int| 0 <= k < i ==> (#[trigger] self.books@[k]).instrument@ != instrument@,
            decreases self.books@.len() - i,
        {
            if self.books[i].instrument.same(instrument) {
                proof {
                    if self.wf() {
                        self.lemma_slot(i as int);
                    }
                }
                return Some(i);
            }
            i += 1;
        }
        None
    }

    /// The book of `instrument`, for changing it; `InvalidInstrument` when the
    /// account has no book for the instrument.
    pub fn get_ins_orders_mut(&mut self, instrument: &Instrument) -> (r: Result<&mut InstrumentOrders, ExchangeError>)
        ensures
            !old(self).has_book(instrument@) ==> r is Err && r->Err_0 == ExchangeError::InvalidInstrument && *final(self)
                == *old(self),
            old(self).has_book(instrument@) ==> r is Ok && exists|i: int|
                {
                    &&& 0 <= i < old(self).books@.len()
                    &&& (#[trigger] old(self).books@[i]).instrument@ == instrument@
                    &&& *r->Ok_0 == old(self).books@[i].orders
                    &&& final(self).latency == old(self).latency
                    &&& final(self).books@ == old(self).books@.update(
                        i,
                        (InstrumentBook { instrument: old(self).books@[i].instrument, orders: *final(r->Ok_0) }),
                    )
                },
    {
        match self.position_of(instrument) {
            Some(i) => Ok(&mut self.books[i].orders),
            None => Err(ExchangeError::InvalidInstrument),
        }
    }

    /// A copy of every resting order of the account, book by book, bids before asks.
    pub fn fetch_all(&self) -> (r: Vec<Order<Open>>)
        ensures
            r@ == resting_orders(self.books@, self.books@.len() as int),
    {
        let mut listing: Vec<Order<Open>> = Vec::new();
        let mut i: usize = 0;
        while i < self.books.len()
            invariant
                i <= self.books@.len(),
                listing@ == resting_orders(self.books@, i as int),
            decreases self.books@.len() - i,
        {
            let mut orders = self.books[i].orders.fetch_all();
            listing.append(&mut orders);
            i += 1;
        }
        listing
    }

    /// Decides the role of a request against the current price;
    /// `PostOnlyViolation` exactly for a post-only order that would trade at once.
    pub fn determine_maker_taker(&self, order: &Order<RequestOpen>, current_price: i64) -> (r: Result<
        OrderRole,
        ExchangeError,
    >)
        ensures
            post_only_violation(order.instruction, order.side, order.state.price, current_price) ==> r is Err
                && r->Err_0 == ExchangeError::PostOnlyViolation,
            !post_only_violation(order.instruction, order.side, order.state.price, current_price) ==> r == Ok::<
                OrderRole,
                ExchangeError,
            >(role_for(order.instruction, order.side, order.state.price, current_price)),
    {
        determine_role(order, current_price)
    }

    /// Stamps the request with the time at which it reaches the exchange: its
    /// own timestamp delayed by the current latency.
    pub fn process_backtest_requestopen_with_a_simulated_latency(&self, request: Order<RequestOpen>) -> (r: Order<
        RequestOpen,
    >)
        ensures
            r == (Order { timestamp: delayed(request.timestamp, self.latency.current_value), ..request }),
    {
        let timestamp = match add_fixed(request.timestamp, self.latency.current_value) {
            Some(t) => t,
            None => request.timestamp,
        };
        Order {
            instruction: request.instruction,
            exchange: request.exchange,
            instrument: request.instrument,
            timestamp,
            cid: request.cid,
            side: request.side,
            state: request.state,
        }
    }
}

} // verus!
