//! Identifiers of requests.
use vstd::prelude::*;
use crate::balance::wall_clock_millis;
use crate::order::{pack_id, packed_id};

verus! {

/// Identifier of a request: a millisecond timestamp, the number of the
/// machine that made it and a counter, packed into 64 bits.
#[derive(Clone, Copy, Debug, PartialEq, Eq, PartialOrd, Ord, Hash, Structural)]
pub struct RequestId(pub u64);

impl RequestId {
    /// The identifier made at millisecond `now` on machine `machine_id` with
    /// counter value `counter`: the low 41 bits of the time, the low 10 bits of
    /// the machine number and the low 12 bits of the counter, in that order.
    pub fn at(now: u64, machine_id: u16, counter: u64) -> (r: Self)
        ensures
            r.0 == packed_id(now, machine_id as u64, counter),
    {
        RequestId(pack_id(now, machine_id as u64, counter))
    }

    /// The identifier made now, by the wall clock, on machine `machine_id`
    /// with counter value `counter`.
    pub fn new(machine_id: u16, counter: u64) -> (r: Self)
        ensures
            exists|now: u64| r.0 == #[trigger] packed_id(now, machine_id as u64, counter),
    {
        let now = wall_clock_millis() as u64;
        Self::at(now, machine_id, counter)
    }

    /// The identifier as a number.
    pub fn value(&self) -> (r: u64)
        ensures
            r == self.0,
    {
        self.0
    }
}

} // verus!
