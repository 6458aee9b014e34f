//! The Sphinx packet format for anonymous mix networks.
//!
//! A sender builds a fixed-size packet addressed through an ordered route of
//! relay nodes ending at a final destination.  Each relay, using only its own
//! long-term secret, verifies an integrity MAC, peels one encryption layer off
//! the routing header and the payload, learns the next hop and a per-hop
//! delay, and forwards a packet that is indistinguishable in length and
//! structure from any other.
//!
//! The crate is organised leaves first: [`bytes`] holds byte-sequence
//! helpers, [`crypto`] the cryptographic primitives, [`keys`] the per-hop
//! key-derivation chain, [`header`] the onion routing header with its MAC
//! chain, and [`payload`] the layered payload.  The packet facade
//! ([`SphinxPacket`], [`create_packet`], [`process_packet`]) lives at the
//! crate root.

use vstd::prelude::*;

pub mod bytes;
pub mod constants;
pub mod crypto;
pub mod delay;
pub mod header;
pub mod keys;
pub mod payload;
pub mod route;

use crate::bytes::be_u64_value;
use crate::bytes::xor_seq;
use crate::constants::GROUP_ELEMENT_LENGTH;
use crate::constants::HEADER_INTEGRITY_MAC_SIZE;
use crate::constants::MAX_ROUTE_LENGTH;
use crate::constants::NODE_ADDRESS_LENGTH;
use crate::constants::PACKET_LENGTH;
use crate::constants::PAYLOAD_CAPACITY;
use crate::constants::PAYLOAD_SIZE;
use crate::constants::PER_HOP_BLOCK_SIZE;
use crate::constants::ROUTING_INFO_SIZE;
use crate::constants::STREAM_OUTPUT_LENGTH;
use crate::bytes::concat_bytes;
use crate::bytes::copy_range;
use crate::crypto::compute_keyed_hmac;
use crate::crypto::group_element_mult;
use crate::crypto::reduce_scalar_bytes;
use crate::crypto::scalar_mult;
use crate::delay::Delay;
use crate::header::build_header;
use crate::header::mac_matches;
use crate::header::process_header;
use crate::header::spec_beta;
use crate::header::spec_gamma;
use crate::header::spec_unwrap_bytes;
use crate::header::SphinxHeader;
use crate::keys::derive_hop_key_material;
use crate::keys::spec_alpha;
use crate::keys::spec_blinding_factor;
use crate::keys::spec_header_mac_key;
use crate::keys::spec_payload_key;
use crate::keys::spec_stream_cipher_key;
use crate::keys::RoutingKeys;
use crate::payload::build_payload;
use crate::payload::payload_keystream;
use crate::payload::spec_payload_layer;
use crate::payload::unwrap_payload;
use crate::route::route_pub_keys;
use crate::route::route_shape_ok;
use crate::route::route_valid;
use crate::route::RouteElement;
use crate::route::SphinxError;

verus! {

/// The shared key a relay derives from its own scalar and the received
/// group element.  For an honest key pair it equals the sender's
/// [`crate::keys::spec_shared_key`] for that hop.
pub open spec fn relay_shared_key(y: Seq<u8>, alpha: Seq<u8>) -> Seq<u8> {
    scalar_mult(y, alpha)
}

/// A full packet: routing header and layered payload.
pub struct SphinxPacket {
    pub header: SphinxHeader,
    pub payload: Vec<u8>,
}

impl SphinxPacket {
    pub open spec fn wf(self) -> bool {
        self.header.wf() && self.payload@.len() == PAYLOAD_SIZE
    }

    /// The serialized form: `alpha`, `beta`, `gamma`, payload.
    pub open spec fn spec_bytes(self) -> Seq<u8> {
        self.header.alpha@ + self.header.beta@ + self.header.gamma@ + self.payload@
    }

    /// Serialize.  For a well-formed packet the result has length
    /// [`PACKET_LENGTH`], whatever the route length or message was.
    pub fn to_bytes(&self) -> (r: Vec<u8>)
        ensures
            r@ == self.spec_bytes(),
            self.wf() ==> r@.len() == PACKET_LENGTH,
    {
        let head = concat_bytes(&self.header.alpha, &self.header.beta);
        let head2 = concat_bytes(&head, &self.header.gamma);
        let r = concat_bytes(&head2, &self.payload);
        proof {
            assert(r@ =~= self.spec_bytes());
        }
        r
    }

    /// Deserialize.  Only byte strings of exactly [`PACKET_LENGTH`] decode;
    /// anything else cannot hold a well-formed group element and blob, and
    /// is rejected as [`SphinxError::MalformedPoint`].
    pub fn from_bytes(bytes: &Vec<u8>) -> (r: Result<SphinxPacket, SphinxError>)
        ensures
            match r {
                Ok(p) => {
                    &&& bytes@.len() == PACKET_LENGTH
                    &&& p.wf()
                    &&& p.spec_bytes() == bytes@
                },
                Err(e) => {
                    &&& e == SphinxError::MalformedPoint
                    &&& bytes@.len() != PACKET_LENGTH
                },
            },
    {
        if bytes.len() != PACKET_LENGTH {
            return Err(SphinxError::MalformedPoint);
        }
        let alpha = copy_range(bytes, 0, GROUP_ELEMENT_LENGTH);
        let beta = copy_range(
            bytes,
            GROUP_ELEMENT_LENGTH,
            GROUP_ELEMENT_LENGTH + ROUTING_INFO_SIZE,
        );
        let gamma = copy_range(
            bytes,
            GROUP_ELEMENT_LENGTH + ROUTING_INFO_SIZE,
            GROUP_ELEMENT_LENGTH + ROUTING_INFO_SIZE + HEADER_INTEGRITY_MAC_SIZE,
        );
        let payload = copy_range(
            bytes,
            GROUP_ELEMENT_LENGTH + ROUTING_INFO_SIZE + HEADER_INTEGRITY_MAC_SIZE,
            PACKET_LENGTH,
        );
        let p = SphinxPacket { header: SphinxHeader { alpha, beta, gamma }, payload };
        proof {
            assert(p.spec_bytes() =~= bytes@);
        }
        Ok(p)
    }
}

/// A route element paired with the delay to apply before forwarding to
/// it, as a relay's caller may want to carry them together.
pub struct Hop {
    pub host: RouteElement,
    pub delay: Delay,
}

/// Build a packet for `route` carrying `message`, from the sender scalar
/// `initial_secret`.
///
/// Errors, in the order they are checked: an empty route, a route whose
/// last element is not the single final hop or whose elements are
/// malformed, a route longer than [`MAX_ROUTE_LENGTH`], and a message over
/// [`PAYLOAD_CAPACITY`].
pub fn create_packet(
    initial_secret: &Vec<u8>,
    message: &Vec<u8>,
    route: &Vec<RouteElement>,
) -> (r: Result<SphinxPacket, SphinxError>)
    requires
        initial_secret@.len() == GROUP_ELEMENT_LENGTH,
    ensures
        match r {
            Ok(p) => {
                &&& route_valid(route@)
                &&& message@.len() <= PAYLOAD_CAPACITY
                &&& p.wf()
                &&& p.header.alpha@ == spec_alpha(initial_secret@, route_pub_keys(route@), 0)
                &&& p.header.beta@ == spec_beta(initial_secret@, route@, 0)
                &&& p.header.gamma@ == spec_gamma(initial_secret@, route@, 0)
                &&& p.payload@ == spec_payload_layer(initial_secret@, route@, message@, 0)
            },
            Err(e) => {
                if route@.len() == 0 {
                    e == SphinxError::EmptyRoute
                } else if !route_shape_ok(route@) {
                    e == SphinxError::InvalidRouteShape
                } else if route@.len() > MAX_ROUTE_LENGTH {
                    e == SphinxError::RouteTooLong
                } else {
                    message@.len() > PAYLOAD_CAPACITY && e == SphinxError::PayloadTooLarge
                }
            },
        },
{
    let n = route.len();
    if n == 0 {
        return Err(SphinxError::EmptyRoute);
    }
    let mut shape_ok = true;
    let mut i: usize = 0;
    #[verifier::loop_isolation(false)]
    while i < n
        invariant
            i <= n,
            shape_ok <==> (forall|j: int|
                0 <= j < i ==> ((#[trigger] route@[j]).is_final_spec() <==> j == n - 1)
                    && route@[j].wf()),
        decreases n - i,
    {
        let elem_final = route[i].is_final();
        let good = (elem_final == (i == n - 1)) && route[i].address().len() == NODE_ADDRESS_LENGTH
            && route[i].pub_key().len() == GROUP_ELEMENT_LENGTH;
        shape_ok = shape_ok && good;
        i = i + 1;
    }
    if !shape_ok {
        proof {
            assert(!route_shape_ok(route@));
        }
        return Err(SphinxError::InvalidRouteShape);
    }
    proof {
        assert(route@[route@.len() - 1].is_final_spec());
        assert(route_shape_ok(route@));
    }
    if n > MAX_ROUTE_LENGTH {
        return Err(SphinxError::RouteTooLong);
    }
    if message.len() > PAYLOAD_CAPACITY {
        return Err(SphinxError::PayloadTooLarge);
    }
    let hop_keys = derive_hop_key_material(initial_secret, route);
    let header = build_header(initial_secret, route, &hop_keys);
    let payload = build_payload(message, route, &hop_keys, Ghost(initial_secret@));
    Ok(SphinxPacket { header, payload })
}

/// Blind a group element between hops: multiply it by the blinding factor
/// `HMAC(shared_key, element)` reduced modulo the group order.
fn blind_the_shared_secret(shared_secret: &Vec<u8>, shared_key: &Vec<u8>) -> (r: Vec<u8>)
    requires
        shared_secret@.len() == GROUP_ELEMENT_LENGTH,
        shared_key@.len() == GROUP_ELEMENT_LENGTH,
    ensures
        r@ == scalar_mult(spec_blinding_factor(shared_key@, shared_secret@), shared_secret@),
        r@.len() == GROUP_ELEMENT_LENGTH,
{
    let hmac_full = compute_keyed_hmac(shared_key, shared_secret);
    let blinding_factor = reduce_scalar_bytes(&hmac_full);
    group_element_mult(&blinding_factor, shared_secret)
}

/// Process a packet at a relay holding the scalar `node_secret_key`: derive
/// the shared key, verify the MAC over `beta` before stripping anything,
/// peel one header and one payload layer, blind the group element, and
/// report the next hop's address and the delay to apply.
///
/// A malformed group element is [`SphinxError::MalformedPoint`]; any other
/// malformation and a forged MAC are alike [`SphinxError::InvalidMac`], so
/// a relay does not leak which check failed.
pub fn process_packet(packet: &SphinxPacket, node_secret_key: &Vec<u8>) -> (r: Result<
    (SphinxPacket, Vec<u8>, u64),
    SphinxError,
>)
    requires
        node_secret_key@.len() == GROUP_ELEMENT_LENGTH,
    ensures
        match r {
            Ok(t) => ({
                let s = relay_shared_key(node_secret_key@, packet.header.alpha@);
                let d = spec_unwrap_bytes(packet.header.beta@, spec_stream_cipher_key(s));
                &&& packet.wf()
                &&& mac_matches(packet.header.beta@, packet.header.gamma@, spec_header_mac_key(s))
                &&& t.0.header.alpha@ == scalar_mult(
                    spec_blinding_factor(s, packet.header.alpha@),
                    packet.header.alpha@,
                )
                &&& t.0.header.beta@ == d.subrange(
                    PER_HOP_BLOCK_SIZE as int,
                    STREAM_OUTPUT_LENGTH as int,
                )
                &&& t.0.header.gamma@ == d.subrange(
                    (NODE_ADDRESS_LENGTH + 8) as int,
                    PER_HOP_BLOCK_SIZE as int,
                )
                &&& t.0.payload@ == xor_seq(packet.payload@, payload_keystream(spec_payload_key(s)))
                &&& t.1@ == d.subrange(0, NODE_ADDRESS_LENGTH as int)
                &&& t.2 == be_u64_value(
                    d.subrange(NODE_ADDRESS_LENGTH as int, (NODE_ADDRESS_LENGTH + 8) as int),
                )
                &&& t.0.wf()
                &&& t.1@.len() == NODE_ADDRESS_LENGTH
            }),
            Err(e) => {
                if packet.header.alpha@.len() != GROUP_ELEMENT_LENGTH {
                    e == SphinxError::MalformedPoint
                } else {
                    ({
                        let s = relay_shared_key(node_secret_key@, packet.header.alpha@);
                        &&& e == SphinxError::InvalidMac
                        &&& !(packet.wf() && mac_matches(
                            packet.header.beta@,
                            packet.header.gamma@,
                            spec_header_mac_key(s),
                        ))
                    })
                }
            },
        },
{
    if packet.header.alpha.len() != GROUP_ELEMENT_LENGTH {
        return Err(SphinxError::MalformedPoint);
    }
    let shared_key = group_element_mult(node_secret_key, &packet.header.alpha);
    let routing_keys = RoutingKeys::derive(&shared_key, &packet.header.alpha);
    if packet.payload.len() != PAYLOAD_SIZE {
        return Err(SphinxError::InvalidMac);
    }
    match process_header(&packet.header.beta, &packet.header.gamma, &routing_keys) {
        Err(e) => Err(e),
        Ok(u) => {
            let new_payload = unwrap_payload(&packet.payload, &routing_keys.payload_key);
            let new_alpha = blind_the_shared_secret(&packet.header.alpha, &shared_key);
            let next = SphinxPacket {
                header: SphinxHeader { alpha: new_alpha, beta: u.next_beta, gamma: u.next_gamma },
                payload: new_payload,
            };
            Ok((next, u.next_address, u.delay_nanos))
        },
    }
}

/// Blinding correctness: when the relay's shared key for hop `i` equals the
/// sender's, the group element the relay emits after blinding is exactly
/// the `alpha` the sender built into hop `i + 1`'s header.
pub proof fn lemma_blinding_correctness(x: Seq<u8>, pks: Seq<Seq<u8>>, y: Seq<u8>, i: int)
    requires
        i >= 0,
        relay_shared_key(y, spec_alpha(x, pks, i)) == crate::keys::spec_shared_key(x, pks, i),
    ensures
        scalar_mult(
            spec_blinding_factor(
                relay_shared_key(y, spec_alpha(x, pks, i)),
                spec_alpha(x, pks, i),
            ),
            spec_alpha(x, pks, i),
        ) == spec_alpha(x, pks, i + 1),
{
    assert(spec_alpha(x, pks, i + 1) == scalar_mult(
        crate::keys::spec_blinder(x, pks, i),
        spec_alpha(x, pks, i),
    ));
}

/// Determinism: every part of a packet is a spec-level function of the
/// sender scalar, the message and the route alone, so two builds from
/// equal inputs agree bitwise.
pub proof fn lemma_create_packet_deterministic(
    x1: Seq<u8>,
    x2: Seq<u8>,
    m1: Seq<u8>,
    m2: Seq<u8>,
    r1: Seq<RouteElement>,
    r2: Seq<RouteElement>,
)
    requires
        x1 == x2,
        m1 == m2,
        r1 == r2,
    ensures
        spec_alpha(x1, route_pub_keys(r1), 0) == spec_alpha(x2, route_pub_keys(r2), 0),
        spec_beta(x1, r1, 0) == spec_beta(x2, r2, 0),
        spec_gamma(x1, r1, 0) == spec_gamma(x2, r2, 0),
        spec_payload_layer(x1, r1, m1, 0) == spec_payload_layer(x2, r2, m2, 0),
{
}

/// Two packets built with the same secret and route but different messages
/// have bitwise identical headers — the header model never mentions the
/// message — and different payloads.
pub proof fn lemma_same_route_headers_equal(
    p1: SphinxPacket,
    p2: SphinxPacket,
    x: Seq<u8>,
    route: Seq<RouteElement>,
    m1: Seq<u8>,
    m2: Seq<u8>,
)
    requires
        route_valid(route),
        m1.len() <= PAYLOAD_CAPACITY,
        m2.len() <= PAYLOAD_CAPACITY,
        m1.len() == 0 || m1.last() != 0u8,
        m2.len() == 0 || m2.last() != 0u8,
        m1 != m2,
        p1.header.alpha@ == spec_alpha(x, route_pub_keys(route), 0),
        p1.header.beta@ == spec_beta(x, route, 0),
        p1.header.gamma@ == spec_gamma(x, route, 0),
        p1.payload@ == spec_payload_layer(x, route, m1, 0),
        p2.header.alpha@ == spec_alpha(x, route_pub_keys(route), 0),
        p2.header.beta@ == spec_beta(x, route, 0),
        p2.header.gamma@ == spec_gamma(x, route, 0),
        p2.payload@ == spec_payload_layer(x, route, m2, 0),
    ensures
        p1.header.alpha@ == p2.header.alpha@,
        p1.header.beta@ == p2.header.beta@,
        p1.header.gamma@ == p2.header.gamma@,
        p1.payload@ != p2.payload@,
{
    crate::payload::lemma_payloads_differ(x, route, m1, m2);
}

/// Per-hop round trip.  At hop `j`, when the relay's shared key agrees
/// with the sender's chain — which Curve25519 guarantees for the honest
/// key pair — the MAC check passes, peeling the payload layer exposes the
/// next layer, and for a forward hop the relay's outputs are exactly the
/// address, delay, MAC, blob and blinded group element the sender built
/// for hop `j + 1`.  At the final hop the decrypted head is the reserved
/// marker and what remains of the payload is the padded plaintext.
/// Chained from `j == 0` upward, this is the full route round trip.
pub proof fn lemma_relay_step(
    x: Seq<u8>,
    route: Seq<RouteElement>,
    message: Seq<u8>,
    y: Seq<u8>,
    j: int,
)
    requires
        route_valid(route),
        message.len() <= PAYLOAD_CAPACITY,
        0 <= j < route.len(),
        relay_shared_key(y, spec_alpha(x, route_pub_keys(route), j)) == crate::keys::spec_shared_key(
            x,
            route_pub_keys(route),
            j,
        ),
    ensures
        ({
            let s = relay_shared_key(y, spec_alpha(x, route_pub_keys(route), j));
            let d = spec_unwrap_bytes(spec_beta(x, route, j), spec_stream_cipher_key(s));
            &&& mac_matches(spec_beta(x, route, j), spec_gamma(x, route, j), spec_header_mac_key(s))
            &&& xor_seq(
                spec_payload_layer(x, route, message, j),
                payload_keystream(spec_payload_key(s)),
            ) == spec_payload_layer(x, route, message, j + 1)
            &&& j < route.len() - 1 ==> {
                &&& d.subrange(0, NODE_ADDRESS_LENGTH as int) == route[j + 1].address_spec()
                &&& be_u64_value(
                    d.subrange(NODE_ADDRESS_LENGTH as int, (NODE_ADDRESS_LENGTH + 8) as int),
                ) == route[j + 1].delay_spec()
                &&& d.subrange((NODE_ADDRESS_LENGTH + 8) as int, PER_HOP_BLOCK_SIZE as int)
                    == spec_gamma(x, route, j + 1)
                &&& d.subrange(PER_HOP_BLOCK_SIZE as int, STREAM_OUTPUT_LENGTH as int)
                    == spec_beta(x, route, j + 1)
                &&& scalar_mult(
                    spec_blinding_factor(s, spec_alpha(x, route_pub_keys(route), j)),
                    spec_alpha(x, route_pub_keys(route), j),
                ) == spec_alpha(x, route_pub_keys(route), j + 1)
            }
            &&& j == route.len() - 1 ==> {
                &&& d.subrange(0, NODE_ADDRESS_LENGTH as int) == crate::header::final_marker()
                &&& spec_payload_layer(x, route, message, j + 1) == crate::payload::spec_payload_plain(
                    message,
                    route[route.len() - 1].address_spec(),
                )
            }
        }),
{
    let s = relay_shared_key(y, spec_alpha(x, route_pub_keys(route), j));
    assert(spec_stream_cipher_key(s) == crate::header::hop_stream_key(x, route, j));
    assert(spec_payload_key(s) == crate::payload::hop_payload_key(x, route, j));
    crate::payload::lemma_payload_peel(x, route, message, j);
    if j < route.len() - 1 {
        crate::header::lemma_unwrap_advances(x, route, j);
        crate::bytes::lemma_be_u64_round_trip(route[j + 1].delay_spec());
        lemma_blinding_correctness(x, route_pub_keys(route), y, j);
    } else {
        crate::header::lemma_unwrap_final(x, route);
    }
}

/// The end of the round trip: at the final hop, under shared-key
/// agreement, peeling the last payload layer exposes a payload whose
/// prefix byte is zero, whose next bytes are the destination address, and
/// whose remainder strips to exactly the original message — provided the
/// message does not itself end in a zero byte, which the zero padding
/// cannot distinguish from padding.
pub proof fn lemma_final_hop_recovers_message(
    x: Seq<u8>,
    route: Seq<RouteElement>,
    message: Seq<u8>,
    y: Seq<u8>,
)
    requires
        route_valid(route),
        message.len() <= PAYLOAD_CAPACITY,
        message.len() == 0 || message.last() != 0u8,
        relay_shared_key(y, spec_alpha(x, route_pub_keys(route), route.len() - 1))
            == crate::keys::spec_shared_key(x, route_pub_keys(route), route.len() - 1),
    ensures
        ({
            let s = relay_shared_key(y, spec_alpha(x, route_pub_keys(route), route.len() - 1));
            let peeled = xor_seq(
                spec_payload_layer(x, route, message, route.len() - 1),
                payload_keystream(spec_payload_key(s)),
            );
            &&& peeled.len() == PAYLOAD_SIZE
            &&& peeled[0] == 0u8
            &&& peeled.subrange(1, crate::constants::PAYLOAD_PREFIX_LENGTH as int) == route[
                route.len() - 1].address_spec()
            &&& crate::payload::strip_trailing_zeros(
                peeled.skip(crate::constants::PAYLOAD_PREFIX_LENGTH as int),
            ) == message
        }),
{
    let j = route.len() - 1;
    lemma_relay_step(x, route, message, y, j);
    crate::payload::lemma_recover_plain(message, route[j].address_spec());
}

/// A tampered MAC is always rejected: sixteen MAC bytes that differ
/// anywhere from the ones the sender computed for this hop fail the
/// relay's check.  (That a change to `beta` is caught rests on HMAC's
/// collision resistance, which is outside what can be proved here.)
pub proof fn lemma_tampered_gamma_rejected(
    x: Seq<u8>,
    route: Seq<RouteElement>,
    y: Seq<u8>,
    j: int,
    gamma2: Seq<u8>,
)
    requires
        route_valid(route),
        0 <= j < route.len(),
        relay_shared_key(y, spec_alpha(x, route_pub_keys(route), j)) == crate::keys::spec_shared_key(
            x,
            route_pub_keys(route),
            j,
        ),
        gamma2 != spec_gamma(x, route, j),
    ensures
        !mac_matches(
            spec_beta(x, route, j),
            gamma2,
            spec_header_mac_key(relay_shared_key(y, spec_alpha(x, route_pub_keys(route), j))),
        ),
{
}

/// Serialization is injective on well-formed packets: equal byte forms
/// mean equal fields.  Together with the contracts of `to_bytes` and
/// `from_bytes` this gives the serialization round trip.
pub proof fn lemma_packet_bytes_injective(p1: SphinxPacket, p2: SphinxPacket)
    requires
        p1.wf(),
        p2.wf(),
        p1.spec_bytes() == p2.spec_bytes(),
    ensures
        p1.header.alpha@ == p2.header.alpha@,
        p1.header.beta@ == p2.header.beta@,
        p1.header.gamma@ == p2.header.gamma@,
        p1.payload@ == p2.payload@,
{
    let a = GROUP_ELEMENT_LENGTH as int;
    let b = (GROUP_ELEMENT_LENGTH + ROUTING_INFO_SIZE) as int;
    let c = (GROUP_ELEMENT_LENGTH + ROUTING_INFO_SIZE + HEADER_INTEGRITY_MAC_SIZE) as int;
    let d = PACKET_LENGTH as int;
    assert(p1.header.alpha@ =~= p1.spec_bytes().subrange(0, a));
    assert(p1.header.beta@ =~= p1.spec_bytes().subrange(a, b));
    assert(p1.header.gamma@ =~= p1.spec_bytes().subrange(b, c));
    assert(p1.payload@ =~= p1.spec_bytes().subrange(c, d));
    assert(p2.header.alpha@ =~= p2.spec_bytes().subrange(0, a));
    assert(p2.header.beta@ =~= p2.spec_bytes().subrange(a, b));
    assert(p2.header.gamma@ =~= p2.spec_bytes().subrange(b, c));
    assert(p2.payload@ =~= p2.spec_bytes().subrange(c, d));
}

/// The whole route, chained: with shared-key agreement at every hop, every
/// relay in order accepts its MAC and hands on exactly the blob the sender
/// built for the next hop, so that successive processing with
/// `ys[0], ..., ys[n-1]` walks the sender's layers one by one.
pub proof fn lemma_route_round_trip(
    x: Seq<u8>,
    route: Seq<RouteElement>,
    message: Seq<u8>,
    ys: Seq<Seq<u8>>,
)
    requires
        route_valid(route),
        message.len() <= PAYLOAD_CAPACITY,
        ys.len() == route.len(),
        forall|j: int|
            0 <= j < route.len() ==> relay_shared_key(
                ys[j],
                spec_alpha(x, route_pub_keys(route), j),
            ) == crate::keys::spec_shared_key(x, route_pub_keys(route), j),
    ensures
        forall|j: int|
            0 <= j < route.len() ==> mac_matches(
                #[trigger] spec_beta(x, route, j),
                spec_gamma(x, route, j),
                spec_header_mac_key(relay_shared_key(ys[j], spec_alpha(x, route_pub_keys(route), j))),
            ),
        forall|j: int|
            0 <= j < route.len() - 1 ==> spec_unwrap_bytes(
                #[trigger] spec_beta(x, route, j),
                spec_stream_cipher_key(
                    relay_shared_key(ys[j], spec_alpha(x, route_pub_keys(route), j)),
                ),
            ).subrange(PER_HOP_BLOCK_SIZE as int, STREAM_OUTPUT_LENGTH as int) == spec_beta(
                x,
                route,
                j + 1,
            ),
        forall|j: int|
            0 <= j < route.len() ==> xor_seq(
                #[trigger] spec_payload_layer(x, route, message, j),
                payload_keystream(
                    spec_payload_key(
                        relay_shared_key(ys[j], spec_alpha(x, route_pub_keys(route), j)),
                    ),
                ),
            ) == spec_payload_layer(x, route, message, j + 1),
{
    assert forall|j: int| 0 <= j < route.len() implies mac_matches(
        #[trigger] spec_beta(x, route, j),
        spec_gamma(x, route, j),
        spec_header_mac_key(relay_shared_key(ys[j], spec_alpha(x, route_pub_keys(route), j))),
    ) by {
        lemma_relay_step(x, route, message, ys[j], j);
    }
    assert forall|j: int| 0 <= j < route.len() - 1 implies spec_unwrap_bytes(
        #[trigger] spec_beta(x, route, j),
        spec_stream_cipher_key(relay_shared_key(ys[j], spec_alpha(x, route_pub_keys(route), j))),
    ).subrange(PER_HOP_BLOCK_SIZE as int, STREAM_OUTPUT_LENGTH as int) == spec_beta(
        x,
        route,
        j + 1,
    ) by {
        lemma_relay_step(x, route, message, ys[j], j);
    }
    assert forall|j: int| 0 <= j < route.len() implies xor_seq(
        #[trigger] spec_payload_layer(x, route, message, j),
        payload_keystream(
            spec_payload_key(relay_shared_key(ys[j], spec_alpha(x, route_pub_keys(route), j))),
        ),
    ) == spec_payload_layer(x, route, message, j + 1) by {
        lemma_relay_step(x, route, message, ys[j], j);
    }
}

} // verus!
