//! Routes, route elements, and the error type of the packet facade.

use vstd::prelude::*;

use crate::constants::GROUP_ELEMENT_LENGTH;
use crate::constants::MAX_ROUTE_LENGTH;
use crate::constants::NODE_ADDRESS_LENGTH;

verus! {

/// Everything that can go wrong while building or processing a packet.
///
/// Construction-time errors are returned to the sender; a relay discards a
/// packet on `InvalidMac` with no side effect, and does not distinguish a
/// malformed blob from a forged MAC.
#[derive(Clone, Copy, Debug, PartialEq, Eq, Structural)]
pub enum SphinxError {
    /// The header integrity check failed; the packet is discarded.
    InvalidMac,
    /// The group element of the header does not decode to 32 bytes.
    MalformedPoint,
    /// The route has no elements.
    EmptyRoute,
    /// The last element is not a final hop, an earlier one is, or an
    /// address or public key has the wrong length.
    InvalidRouteShape,
    /// The route is longer than [`MAX_ROUTE_LENGTH`].
    RouteTooLong,
    /// The message does not fit the payload after padding.
    PayloadTooLarge,
}

/// One element of a route: a relay to forward through, or the final node.
///
/// The delay of a forward hop is carried, big-endian in nanoseconds, in the
/// routing block that names the hop, and handed to the relay one hop
/// earlier together with the hop's address.
pub enum RouteElement {
    ForwardHop { address: Vec<u8>, pub_key: Vec<u8>, delay_nanos: u64 },
    FinalHop { address: Vec<u8>, pub_key: Vec<u8> },
}

impl RouteElement {
    pub open spec fn address_spec(self) -> Seq<u8> {
        match self {
            RouteElement::ForwardHop { address, .. } => address@,
            RouteElement::FinalHop { address, .. } => address@,
        }
    }

    pub open spec fn pub_key_spec(self) -> Seq<u8> {
        match self {
            RouteElement::ForwardHop { pub_key, .. } => pub_key@,
            RouteElement::FinalHop { pub_key, .. } => pub_key@,
        }
    }

    pub open spec fn delay_spec(self) -> u64 {
        match self {
            RouteElement::ForwardHop { delay_nanos, .. } => delay_nanos,
            RouteElement::FinalHop { .. } => 0u64,
        }
    }

    pub open spec fn is_final_spec(self) -> bool {
        match self {
            RouteElement::ForwardHop { .. } => false,
            RouteElement::FinalHop { .. } => true,
        }
    }

    /// Addresses and public keys have their fixed lengths.
    pub open spec fn wf(self) -> bool {
        self.address_spec().len() == NODE_ADDRESS_LENGTH && self.pub_key_spec().len()
            == GROUP_ELEMENT_LENGTH
    }

    pub fn address(&self) -> (r: &Vec<u8>)
        ensures
            r@ == self.address_spec(),
    {
        match self {
            RouteElement::ForwardHop { address, .. } => address,
            RouteElement::FinalHop { address, .. } => address,
        }
    }

    pub fn pub_key(&self) -> (r: &Vec<u8>)
        ensures
            r@ == self.pub_key_spec(),
    {
        match self {
            RouteElement::ForwardHop { pub_key, .. } => pub_key,
            RouteElement::FinalHop { pub_key, .. } => pub_key,
        }
    }

    pub fn delay_nanos(&self) -> (r: u64)
        ensures
            r == self.delay_spec(),
    {
        match self {
            RouteElement::ForwardHop { delay_nanos, .. } => *delay_nanos,
            RouteElement::FinalHop { .. } => 0u64,
        }
    }

    pub fn is_final(&self) -> (r: bool)
        ensures
            r == self.is_final_spec(),
    {
        match self {
            RouteElement::ForwardHop { .. } => false,
            RouteElement::FinalHop { .. } => true,
        }
    }
}

/// The public keys of a route, hop by hop.
pub open spec fn route_pub_keys(route: Seq<RouteElement>) -> Seq<Seq<u8>> {
    route.map(|i: int, e: RouteElement| e.pub_key_spec())
}

/// A well-shaped route: every element well-formed, exactly the last one
/// final.
pub open spec fn route_shape_ok(route: Seq<RouteElement>) -> bool {
    &&& route.len() > 0
    &&& route[route.len() - 1].is_final_spec()
    &&& forall|i: int| 0 <= i < route.len() - 1 ==> !route[i].is_final_spec()
    &&& forall|i: int| 0 <= i < route.len() ==> route[i].wf()
}

/// A route the header builder accepts.
pub open spec fn route_valid(route: Seq<RouteElement>) -> bool {
    route_shape_ok(route) && route.len() <= MAX_ROUTE_LENGTH
}

} // verus!
