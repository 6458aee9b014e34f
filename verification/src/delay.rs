//! Per-hop delays: non-negative 64-bit nanosecond counts, serialized
//! big-endian over [`DELAY_LENGTH`] bytes.
//!
//! How a delay is sampled (an exponential distribution with a deployment-
//! chosen mean) is the caller's concern; here a delay is data.

use vstd::prelude::*;

use crate::bytes::be_bytes_to_u64;
use crate::bytes::be_u64_bytes;
use crate::bytes::be_u64_value;
use crate::bytes::lemma_be_u64_round_trip;
use crate::bytes::u64_to_be_bytes;
use crate::constants::DELAY_LENGTH;

verus! {

/// A per-hop delay in nanoseconds.
#[derive(Clone, Copy, Debug, PartialEq, Eq, Structural)]
pub struct Delay {
    pub nanos: u64,
}

impl Delay {
    pub fn new_from_nanos(value: u64) -> (r: Delay)
        ensures
            r.nanos == value,
    {
        Delay { nanos: value }
    }

    pub fn to_nanos(&self) -> (r: u64)
        ensures
            r == self.nanos,
    {
        self.nanos
    }

    pub fn to_bytes(&self) -> (r: Vec<u8>)
        ensures
            r@ == be_u64_bytes(self.nanos),
            r@.len() == DELAY_LENGTH,
    {
        u64_to_be_bytes(self.nanos)
    }

    pub fn from_bytes(delay_bytes: &Vec<u8>) -> (r: Delay)
        requires
            delay_bytes@.len() == DELAY_LENGTH,
        ensures
            r.nanos == be_u64_value(delay_bytes@),
    {
        Delay { nanos: be_bytes_to_u64(delay_bytes) }
    }
}

/// Serialization round-trip: reading back the eight bytes of a delay yields
/// the delay.
pub proof fn lemma_delay_round_trip(d: Delay)
    ensures
        be_u64_value(be_u64_bytes(d.nanos)) == d.nanos,
{
    lemma_be_u64_round_trip(d.nanos);
}

} // verus!
