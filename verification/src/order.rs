//! Orders and the states an order passes through.
use vstd::prelude::*;
use vstd::string::StrSliceExecFns;
use crate::fixed::{fits_i64, notional};
use crate::instrument::{Exchange, Instrument, Side};

verus! {

/// The 64-bit value that packs a millisecond timestamp (41 bits), a machine
/// number (10 bits) and a counter (12 bits), most significant first.
pub open spec fn packed_id(timestamp: u64, machine_id: u64, counter: u64) -> u64 {
    ((timestamp & 0x1FF_FFFF_FFFF) << 22) | ((machine_id & 0x3FF) << 12) | (counter & 0xFFF)
}

/// Computes [`packed_id`].
pub fn pack_id(timestamp: u64, machine_id: u64, counter: u64) -> (r: u64)
    ensures
        r == packed_id(timestamp, machine_id, counter),
{
    let high: u64 = timestamp & 0x1FF_FFFF_FFFF;
    let middle: u64 = machine_id & 0x3FF;
    let low: u64 = counter & 0xFFF;
    assert(high <= 0x1FF_FFFF_FFFF) by (bit_vector)
        requires
            high == timestamp & 0x1FF_FFFF_FFFF,
    ;
    assert(middle <= 0x3FF) by (bit_vector)
        requires
            middle == machine_id & 0x3FF,
    ;
    assert((high << 22) == high * 0x40_0000 && (middle << 12) == middle * 0x1000) by (bit_vector)
        requires
            high <= 0x1FF_FFFF_FFFF,
            middle <= 0x3FF,
    ;
    (high << 22) | (middle << 12) | low
}

/// Identifier that the exchange gives an order on admission.
#[derive(Clone, Copy, Debug, PartialEq, Eq, PartialOrd, Ord, Hash, Structural)]
pub struct OrderId(pub u64);

impl OrderId {
    /// The identifier packed from a timestamp, a machine number and a counter.
    pub fn new(timestamp: u64, machine_id: u64, counter: u64) -> (r: Self)
        ensures
            r.0 == packed_id(timestamp, machine_id, counter),
    {
        OrderId(pack_id(timestamp, machine_id, counter))
    }

    /// The identifier as a number.
    pub fn value(&self) -> (r: u64)
        ensures
            r == self.0,
    {
        self.0
    }
}

/// A character that may occur in a client order id: printable ASCII, no blank.
pub open spec fn is_id_char(c: char) -> bool {
    '!' <= c <= '~'
}

/// The format of a client order id: 1 to 20 characters, each an [`is_id_char`].
pub open spec fn valid_id_format(s: Seq<char>) -> bool {
    &&& 1 <= s.len() <= 20
    &&& forall|i: int| 0 <= i < s.len() ==> is_id_char(#[trigger] s[i])
}

/// Identifier that the client chooses for its own order.
#[derive(Debug, PartialEq, Eq, Hash)]
pub struct ClientOrderId(pub String);

impl View for ClientOrderId {
    type V = Seq<char>;

    open spec fn view(&self) -> Seq<char> {
        self.0@
    }
}

impl Clone for ClientOrderId {
    fn clone(&self) -> (r: Self)
        ensures
            r == *self,
    {
        ClientOrderId(self.0.clone())
    }
}

impl ClientOrderId {
    /// Whether `id` has the format of a client order id.
    pub fn validate_id_format(id: &str) -> (r: bool)
        ensures
            r == valid_id_format(id@),
    {
        let len: usize = id.unicode_len();
        if len < 1 || len > 20 {
            return false;
        }
        let mut i: usize = 0;
        while i < len
            invariant
                len == id@.len(),
                i <= len,
                forall|j: int| 0 <= j < i ==> is_id_char(#[trigger] id@[j]),
            decreases len - i,
        {
            let c: char = id.get_char(i);
            if c < '!' || c > '~' {
                return false;
            }
            i += 1;
        }
        true
    }

    /// Whether two ids are the same text.
    pub fn same(&self, other: &ClientOrderId) -> (r: bool)
        ensures
            r == (self@ == other@),
    {
        self.0 == other.0
    }
}

/// Copies an optional client order id.
pub fn clone_cid(cid: &Option<ClientOrderId>) -> (r: Option<ClientOrderId>)
    ensures
        r == *cid,
{
    match cid {
        Some(c) => Some(c.clone()),
        None => None,
    }
}

/// How an order asks to be executed.
#[derive(Clone, Copy, Debug, PartialEq, Eq, Hash, Structural)]
pub enum OrderInstruction {
    Market,
    Limit,
    ImmediateOrCancel,
    FillOrKill,
    PostOnly,
    GoodTilCancelled,
    Cancel,
}

/// Whether an order adds liquidity (maker) or removes it (taker). Fixed on admission.
#[derive(Clone, Copy, Debug, PartialEq, Eq, Hash, Structural)]
pub enum OrderRole {
    Maker,
    Taker,
}

/// An order in state `S`.
#[derive(Debug, PartialEq, Eq)]
pub struct Order<S> {
    pub instruction: OrderInstruction,
    pub exchange: Exchange,
    pub instrument: Instrument,
    pub timestamp: i64,
    pub cid: Option<ClientOrderId>,
    pub side: Side,
    pub state: S,
}

impl<S: Copy> Clone for Order<S> {
    fn clone(&self) -> (r: Self)
        ensures
            r == *self,
    {
        Order {
            instruction: self.instruction,
            exchange: self.exchange,
            instrument: self.instrument.clone(),
            timestamp: self.timestamp,
            cid: clone_cid(&self.cid),
            side: self.side,
            state: self.state,
        }
    }
}

/// A request to open an order at `price` for `size`.
#[derive(Clone, Copy, Debug, PartialEq, Eq, Structural)]
pub struct RequestOpen {
    pub price: i64,
    pub size: i64,
    pub reduce_only: bool,
}

/// An order resting in the book.
#[derive(Clone, Copy, Debug, PartialEq, Eq, Structural)]
pub struct Open {
    pub id: OrderId,
    pub price: i64,
    pub size: i64,
    pub filled_quantity: i64,
    pub order_role: OrderRole,
}

impl Open {
    /// The resting order is well formed: a positive price and `0 <= filled <= size`.
    pub open spec fn wf(&self) -> bool {
        &&& self.price > 0
        &&& 0 <= self.filled_quantity <= self.size
    }

    /// The order may rest in a book: it is well formed, something of it is
    /// left to fill, and its notional is representable.
    pub open spec fn resting(&self) -> bool {
        &&& self.wf()
        &&& self.filled_quantity < self.size
        &&& fits_i64(notional(self.price as int, self.size as int))
    }

    /// The part of the order not yet filled.
    pub open spec fn remaining(&self) -> int {
        self.size - self.filled_quantity
    }

    /// The part of the order not yet filled.
    pub fn remaining_quantity(&self) -> (r: i64)
        requires
            self.wf(),
        ensures
            r == self.remaining(),
    {
        self.size - self.filled_quantity
    }
}

/// A request to cancel the order with the given id, or with the request's client id.
#[derive(Clone, Copy, Debug, PartialEq, Eq, Structural)]
pub struct RequestCancel {
    pub id: Option<OrderId>,
}

/// An order that was cancelled.
#[derive(Clone, Copy, Debug, PartialEq, Eq, Structural)]
pub struct Cancelled {
    pub id: OrderId,
}

impl Order<Open> {
    /// The cancelled order that results from taking this order off the book.
    pub fn into_cancelled(self) -> (r: Order<Cancelled>)
        ensures
            r == self.as_cancelled(),
    {
        Order {
            instruction: self.instruction,
            exchange: self.exchange,
            instrument: self.instrument,
            timestamp: self.timestamp,
            cid: self.cid,
            side: self.side,
            state: Cancelled { id: self.state.id },
        }
    }

    /// This order with its state replaced by `Cancelled`.
    pub open spec fn as_cancelled(self) -> Order<Cancelled> {
        Order {
            instruction: self.instruction,
            exchange: self.exchange,
            instrument: self.instrument,
            timestamp: self.timestamp,
            cid: self.cid,
            side: self.side,
            state: Cancelled { id: self.state.id },
        }
    }
}

} // verus!
