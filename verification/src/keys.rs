//! The forward key-derivation chain.
//!
//! From one sender scalar `x` and the route's public keys, the chain yields
//! for each hop `i` a group element `alpha_i` carried in the header, a
//! shared key `s_i`, and the routing keys derived from `s_i` by
//! domain-separated HMAC-SHA256 expansion.  The relay at hop `i`, given its
//! own scalar `y_i` and the received `alpha_i`, computes `y_i * alpha_i`;
//! for an honest key pair this is the same byte string as `s_i`, and the
//! relay then derives the identical routing keys.

use vstd::prelude::*;

use crate::bytes::copy_range;
use crate::constants::GROUP_ELEMENT_LENGTH;
use crate::constants::STREAM_CIPHER_KEY_SIZE;
use crate::crypto::base_point;
use crate::crypto::base_point_bytes;
use crate::crypto::compute_keyed_hmac;
use crate::crypto::group_element_mult;
use crate::crypto::mac_bytes;
use crate::crypto::multiply_scalars;
use crate::crypto::reduce_scalar_bytes;
use crate::crypto::reduced_scalar;
use crate::crypto::scalar_mult;
use crate::crypto::scalar_product;
use crate::route::route_pub_keys;
use crate::route::RouteElement;

verus! {

/// Domain-separation context for the header stream-cipher key.
pub open spec fn stream_key_context() -> Seq<u8> {
    seq![1u8]
}

/// Domain-separation context for the header-integrity MAC key.
pub open spec fn mac_key_context() -> Seq<u8> {
    seq![2u8]
}

/// Domain-separation context for the payload key.
pub open spec fn payload_key_context() -> Seq<u8> {
    seq![3u8]
}

/// The 16-byte header stream-cipher key derived from a shared key.
pub open spec fn spec_stream_cipher_key(shared: Seq<u8>) -> Seq<u8> {
    mac_bytes(shared, stream_key_context()).take(STREAM_CIPHER_KEY_SIZE as int)
}

/// The 32-byte header-integrity MAC key derived from a shared key.
pub open spec fn spec_header_mac_key(shared: Seq<u8>) -> Seq<u8> {
    mac_bytes(shared, mac_key_context())
}

/// The 16-byte payload key derived from a shared key.
pub open spec fn spec_payload_key(shared: Seq<u8>) -> Seq<u8> {
    mac_bytes(shared, payload_key_context()).take(STREAM_CIPHER_KEY_SIZE as int)
}

/// The blinding factor of a hop: `HMAC(s, alpha)` reduced modulo the group
/// order.  Sender and relay both know `s` and `alpha`, so both can compute
/// it.
pub open spec fn spec_blinding_factor(shared: Seq<u8>, alpha: Seq<u8>) -> Seq<u8> {
    reduced_scalar(mac_bytes(shared, alpha))
}

/// The group element carried in the header at hop `i`:
/// `alpha_0 = x * G`, then `alpha_{i+1} = b_i * alpha_i`.
pub open spec fn spec_alpha(x: Seq<u8>, pks: Seq<Seq<u8>>, i: int) -> Seq<u8>
    decreases i, 0int,
{
    if i <= 0 {
        scalar_mult(x, base_point())
    } else {
        scalar_mult(spec_blinder(x, pks, i - 1), spec_alpha(x, pks, i - 1))
    }
}

/// The sender's accumulated scalar at hop `i`: `x * b_0 * ... * b_{i-1}`.
pub open spec fn spec_x_acc(x: Seq<u8>, pks: Seq<Seq<u8>>, i: int) -> Seq<u8>
    decreases i, 0int,
{
    if i <= 0 {
        x
    } else {
        scalar_product(spec_x_acc(x, pks, i - 1), spec_blinder(x, pks, i - 1))
    }
}

/// The shared key of hop `i` as the sender derives it: `x_i * Y_i`.
pub open spec fn spec_shared_key(x: Seq<u8>, pks: Seq<Seq<u8>>, i: int) -> Seq<u8>
    decreases i, 1int,
{
    scalar_mult(spec_x_acc(x, pks, i), pks[i])
}

/// The blinding factor of hop `i` in the sender's chain.
pub open spec fn spec_blinder(x: Seq<u8>, pks: Seq<Seq<u8>>, i: int) -> Seq<u8>
    decreases i, 2int,
{
    spec_blinding_factor(spec_shared_key(x, pks, i), spec_alpha(x, pks, i))
}

/// The per-hop keys derived from one shared key, consumed within a single
/// packet build or a single hop's processing.
pub struct RoutingKeys {
    pub stream_cipher_key: Vec<u8>,
    pub header_integrity_mac_key: Vec<u8>,
    pub payload_key: Vec<u8>,
    pub blinding_factor: Vec<u8>,
}

impl RoutingKeys {
    pub open spec fn wf(self) -> bool {
        &&& self.stream_cipher_key@.len() == STREAM_CIPHER_KEY_SIZE
        &&& self.header_integrity_mac_key@.len() == 32
        &&& self.payload_key@.len() == STREAM_CIPHER_KEY_SIZE
        &&& self.blinding_factor@.len() == GROUP_ELEMENT_LENGTH
    }

    /// Every field is the stated function of the shared key (and, for the
    /// blinding factor, of the header's group element).
    pub open spec fn derived_from(self, shared: Seq<u8>, alpha: Seq<u8>) -> bool {
        &&& self.stream_cipher_key@ == spec_stream_cipher_key(shared)
        &&& self.header_integrity_mac_key@ == spec_header_mac_key(shared)
        &&& self.payload_key@ == spec_payload_key(shared)
        &&& self.blinding_factor@ == spec_blinding_factor(shared, alpha)
    }

    /// Derive the routing keys of one hop from its shared key and the group
    /// element under which the shared key was reached.
    pub fn derive(shared_key: &Vec<u8>, alpha: &Vec<u8>) -> (r: RoutingKeys)
        requires
            shared_key@.len() == GROUP_ELEMENT_LENGTH,
            alpha@.len() == GROUP_ELEMENT_LENGTH,
        ensures
            r.wf(),
            r.derived_from(shared_key@, alpha@),
    {
        let mut ctx_stream: Vec<u8> = Vec::new();
        ctx_stream.push(1u8);
        let mut ctx_mac: Vec<u8> = Vec::new();
        ctx_mac.push(2u8);
        let mut ctx_payload: Vec<u8> = Vec::new();
        ctx_payload.push(3u8);
        proof {
            assert(ctx_stream@ =~= stream_key_context());
            assert(ctx_mac@ =~= mac_key_context());
            assert(ctx_payload@ =~= payload_key_context());
        }
        let stream_full = compute_keyed_hmac(shared_key, &ctx_stream);
        let stream_cipher_key = copy_range(&stream_full, 0, STREAM_CIPHER_KEY_SIZE);
        let header_integrity_mac_key = compute_keyed_hmac(shared_key, &ctx_mac);
        let payload_full = compute_keyed_hmac(shared_key, &ctx_payload);
        let payload_key = copy_range(&payload_full, 0, STREAM_CIPHER_KEY_SIZE);
        let blinding_full = compute_keyed_hmac(shared_key, alpha);
        let blinding_factor = reduce_scalar_bytes(&blinding_full);
        RoutingKeys { stream_cipher_key, header_integrity_mac_key, payload_key, blinding_factor }
    }
}

/// The key material of one hop in the sender's chain.
pub struct HopKeyMaterial {
    pub alpha: Vec<u8>,
    pub shared_key: Vec<u8>,
    pub routing_keys: RoutingKeys,
}

impl HopKeyMaterial {
    /// The record holds exactly the chain values of hop `i` for sender
    /// scalar `x` and route public keys `pks`.
    pub open spec fn matches(self, x: Seq<u8>, pks: Seq<Seq<u8>>, i: int) -> bool {
        &&& self.alpha@ == spec_alpha(x, pks, i)
        &&& self.shared_key@ == spec_shared_key(x, pks, i)
        &&& self.routing_keys.derived_from(self.shared_key@, self.alpha@)
        &&& self.alpha@.len() == GROUP_ELEMENT_LENGTH
        &&& self.shared_key@.len() == GROUP_ELEMENT_LENGTH
        &&& self.routing_keys.wf()
    }
}

/// Run the sender's key-derivation chain over the whole route.
#[verifier::loop_isolation(false)]
pub fn derive_hop_key_material(x: &Vec<u8>, route: &Vec<RouteElement>) -> (r: Vec<HopKeyMaterial>)
    requires
        x@.len() == GROUP_ELEMENT_LENGTH,
        forall|i: int| 0 <= i < route@.len() ==> (#[trigger] route@[i]).wf(),
    ensures
        r@.len() == route@.len(),
        forall|i: int|
            0 <= i < route@.len() ==> (#[trigger] r@[i]).matches(x@, route_pub_keys(route@), i),
{
    let ghost pks = route_pub_keys(route@);
    let base = base_point_bytes();
    let mut cur_alpha = group_element_mult(x, &base);
    let mut x_acc = copy_range(x, 0, x.len());
    proof {
        assert(x_acc@ =~= x@);
    }
    let mut r: Vec<HopKeyMaterial> = Vec::new();
    let mut i: usize = 0;
    while i < route.len()
        invariant
            i <= route@.len(),
            r@.len() == i,
            cur_alpha@ == spec_alpha(x@, pks, i as int),
            cur_alpha@.len() == GROUP_ELEMENT_LENGTH,
            x_acc@ == spec_x_acc(x@, pks, i as int),
            x_acc@.len() == GROUP_ELEMENT_LENGTH,
            forall|j: int| 0 <= j < i ==> (#[trigger] r@[j]).matches(x@, pks, j),
        decreases route@.len() - i,
    {
        let shared_key = group_element_mult(&x_acc, route[i].pub_key());
        proof {
            assert(pks[i as int] == route@[i as int].pub_key_spec());
            assert(shared_key@ == spec_shared_key(x@, pks, i as int));
        }
        let routing_keys = RoutingKeys::derive(&shared_key, &cur_alpha);
        let blinder = copy_range(&routing_keys.blinding_factor, 0, GROUP_ELEMENT_LENGTH);
        proof {
            assert(blinder@ =~= routing_keys.blinding_factor@);
            assert(blinder@ == spec_blinder(x@, pks, i as int));
        }
        let next_alpha = group_element_mult(&blinder, &cur_alpha);
        let next_x_acc = multiply_scalars(&x_acc, &blinder);
        let hop = HopKeyMaterial { alpha: cur_alpha, shared_key, routing_keys };
        r.push(hop);
        cur_alpha = next_alpha;
        x_acc = next_x_acc;
        i = i + 1;
    }
    r
}

} // verus!
