//! The onion-encrypted routing header and its per-hop processing.
//!
//! The sender builds `beta` from the innermost hop outward: the final hop's
//! layer carries a final-hop marker and precomputed filler, and every outer
//! layer prepends the next hop's address, delay and MAC, truncates to the
//! fixed size, and encrypts under that hop's stream-cipher key.  A relay
//! verifies its MAC `gamma` over `beta`, extends `beta` with one zero block,
//! decrypts, and reads off the next hop's address, delay, MAC and `beta`.
//! The filler is chosen so that the tail bytes the relay's decryption
//! produces are exactly the tail of the next layer's `beta`.

use vstd::prelude::*;

use crate::bytes::be_bytes_to_u64;
use crate::bytes::be_u64_bytes;
use crate::bytes::be_u64_value;
use crate::bytes::concat_bytes;
use crate::bytes::copy_range;
use crate::bytes::tags_equal;
use crate::bytes::u64_to_be_bytes;
use crate::bytes::xor_bytes;
use crate::bytes::xor_seq;
use crate::bytes::zero_bytes;
use crate::bytes::zero_seq;
use crate::constants::GROUP_ELEMENT_LENGTH;
use crate::constants::HEADER_INTEGRITY_MAC_SIZE;
use crate::constants::NODE_ADDRESS_LENGTH;
use crate::constants::PER_HOP_BLOCK_SIZE;
use crate::constants::ROUTING_INFO_SIZE;
use crate::constants::STREAM_CIPHER_IV_SIZE;
use crate::constants::STREAM_OUTPUT_LENGTH;
use crate::crypto::compute_keyed_hmac;
use crate::crypto::generate_pseudorandom_bytes;
use crate::crypto::mac_bytes;
use crate::crypto::prg_bytes;
use crate::keys::spec_header_mac_key;
use crate::keys::spec_shared_key;
use crate::keys::spec_stream_cipher_key;
use crate::keys::HopKeyMaterial;
use crate::keys::RoutingKeys;
use crate::route::route_pub_keys;
use crate::route::route_valid;
use crate::route::RouteElement;
use crate::route::SphinxError;

verus! {

/// The fixed-length routing header of a packet.
pub struct SphinxHeader {
    pub alpha: Vec<u8>,
    pub beta: Vec<u8>,
    pub gamma: Vec<u8>,
}

impl SphinxHeader {
    pub open spec fn wf(self) -> bool {
        &&& self.alpha@.len() == GROUP_ELEMENT_LENGTH
        &&& self.beta@.len() == ROUTING_INFO_SIZE
        &&& self.gamma@.len() == HEADER_INTEGRITY_MAC_SIZE
    }
}

/// The all-zero stream-cipher IV: sound because every hop's key is unique.
pub open spec fn zero_iv() -> Seq<u8> {
    zero_seq(STREAM_CIPHER_IV_SIZE as nat)
}

/// The reserved address marking the final hop.
pub open spec fn final_marker() -> Seq<u8> {
    Seq::new(NODE_ADDRESS_LENGTH as nat, |i: int| 255u8)
}

/// The header stream-cipher key of hop `j` in the sender's chain.
pub open spec fn hop_stream_key(x: Seq<u8>, route: Seq<RouteElement>, j: int) -> Seq<u8> {
    spec_stream_cipher_key(spec_shared_key(x, route_pub_keys(route), j))
}

/// The header-integrity MAC key of hop `j` in the sender's chain.
pub open spec fn hop_mac_key(x: Seq<u8>, route: Seq<RouteElement>, j: int) -> Seq<u8> {
    spec_header_mac_key(spec_shared_key(x, route_pub_keys(route), j))
}

/// The header keystream of hop `j`: one blob plus one block.
pub open spec fn hop_ks(x: Seq<u8>, route: Seq<RouteElement>, j: int) -> Seq<u8> {
    prg_bytes(hop_stream_key(x, route, j), zero_iv(), STREAM_OUTPUT_LENGTH as nat)
}

/// The filler after `i` of the sender's iterations: grown by one zero block
/// per hop and XORed with the tail of that hop's keystream, so that `i`
/// successive relay decryptions leave a sender-computable tail.
pub open spec fn spec_filler(x: Seq<u8>, route: Seq<RouteElement>, i: int) -> Seq<u8>
    decreases i,
{
    if i <= 0 {
        Seq::empty()
    } else {
        xor_seq(
            spec_filler(x, route, i - 1) + zero_seq(PER_HOP_BLOCK_SIZE as nat),
            hop_ks(x, route, i - 1).skip(STREAM_OUTPUT_LENGTH - PER_HOP_BLOCK_SIZE * i),
        )
    }
}

/// The cleartext head of the innermost layer: the final-hop marker, zero
/// padded up to the start of the filler.
pub open spec fn spec_final_plain(route: Seq<RouteElement>) -> Seq<u8>
    recommends
        1 <= route.len() <= 5,
{
    final_marker() + zero_seq(
        (ROUTING_INFO_SIZE - PER_HOP_BLOCK_SIZE * (route.len() - 1) - NODE_ADDRESS_LENGTH) as nat,
    )
}

/// The cleartext block an outer layer prepends: the next hop's address,
/// delay, and MAC.
pub open spec fn spec_next_block(x: Seq<u8>, route: Seq<RouteElement>, j: int) -> Seq<u8>
    recommends
        0 <= j < route.len() - 1,
    decreases route.len() - j, 0int,
{
    if j + 1 < route.len() {
        route[j + 1].address_spec() + be_u64_bytes(route[j + 1].delay_spec()) + spec_gamma(
            x,
            route,
            j + 1,
        )
    } else {
        Seq::empty()
    }
}

/// The routing blob of hop `j`, built inner to outer.
pub open spec fn spec_beta(x: Seq<u8>, route: Seq<RouteElement>, j: int) -> Seq<u8>
    decreases route.len() - j, 1int,
{
    if j >= route.len() - 1 {
        xor_seq(spec_final_plain(route), hop_ks(x, route, route.len() - 1)) + spec_filler(
            x,
            route,
            route.len() - 1,
        )
    } else {
        xor_seq(
            spec_next_block(x, route, j) + spec_beta(x, route, j + 1).take(
                ROUTING_INFO_SIZE - PER_HOP_BLOCK_SIZE,
            ),
            hop_ks(x, route, j),
        )
    }
}

/// The header MAC of hop `j`: truncated HMAC of `beta` under the hop's MAC
/// key.
pub open spec fn spec_gamma(x: Seq<u8>, route: Seq<RouteElement>, j: int) -> Seq<u8>
    recommends
        0 <= j < route.len(),
    decreases route.len() - j, 2int,
{
    if j < route.len() {
        mac_bytes(hop_mac_key(x, route, j), spec_beta(x, route, j)).take(
            HEADER_INTEGRITY_MAC_SIZE as int,
        )
    } else {
        Seq::empty()
    }
}

pub proof fn lemma_filler_len(x: Seq<u8>, route: Seq<RouteElement>, i: int)
    requires
        0 <= i,
    ensures
        spec_filler(x, route, i).len() == PER_HOP_BLOCK_SIZE * i,
    decreases i,
{
    crate::constants::lemma_per_hop_block_product(i);
    if i > 0 {
        crate::constants::lemma_per_hop_block_product(i - 1);
        lemma_filler_len(x, route, i - 1);
    }
}

pub proof fn lemma_beta_len(x: Seq<u8>, route: Seq<RouteElement>, j: int)
    requires
        route_valid(route),
        0 <= j <= route.len() - 1,
    ensures
        spec_beta(x, route, j).len() == ROUTING_INFO_SIZE,
    decreases route.len() - j,
{
    if j >= route.len() - 1 {
        crate::constants::lemma_per_hop_block_product(route.len() - 1);
        lemma_filler_len(x, route, route.len() - 1);
        assert(1 <= route.len() <= 5);
        assert(PER_HOP_BLOCK_SIZE * (route.len() - 1) == 56 * (route.len() - 1));
        assert(ROUTING_INFO_SIZE - PER_HOP_BLOCK_SIZE * (route.len() - 1) - NODE_ADDRESS_LENGTH
            >= 0);
        assert(spec_final_plain(route).len() == ROUTING_INFO_SIZE - PER_HOP_BLOCK_SIZE * (
        route.len() - 1));
        assert(spec_beta(x, route, j).len() == ROUTING_INFO_SIZE);
    } else {
        lemma_beta_len(x, route, j + 1);
        assert(route[j + 1].wf());
        assert(spec_next_block(x, route, j).len() == PER_HOP_BLOCK_SIZE);
        assert(spec_beta(x, route, j + 1).take(ROUTING_INFO_SIZE - PER_HOP_BLOCK_SIZE).len()
            == ROUTING_INFO_SIZE - PER_HOP_BLOCK_SIZE);
        assert(spec_beta(x, route, j).len() == ROUTING_INFO_SIZE);
    }
}

/// The filler invariant: the last `PER_HOP_BLOCK_SIZE * j` bytes of hop
/// `j`'s blob are exactly the filler after `j` iterations.  This is what
/// makes a relay's decryption reproduce the next hop's blob in full.
pub proof fn lemma_beta_tail(x: Seq<u8>, route: Seq<RouteElement>, j: int)
    requires
        route_valid(route),
        1 <= j <= route.len() - 1,
    ensures
        spec_beta(x, route, j).skip(ROUTING_INFO_SIZE - PER_HOP_BLOCK_SIZE * j) == spec_filler(
            x,
            route,
            j,
        ),
    decreases route.len() - j,
{
    crate::constants::lemma_per_hop_block_product(j);
    crate::constants::lemma_per_hop_block_product(j + 1);
    crate::constants::lemma_per_hop_block_product(route.len() - 1);
    lemma_beta_len(x, route, j);
    lemma_filler_len(x, route, j);
    assert(1 <= route.len() <= 5);
    if j == route.len() - 1 {
        assert(spec_final_plain(route).len() == ROUTING_INFO_SIZE - PER_HOP_BLOCK_SIZE * j);
        assert(spec_beta(x, route, j).skip(ROUTING_INFO_SIZE - PER_HOP_BLOCK_SIZE * j)
            =~= spec_filler(x, route, j));
    } else {
        lemma_beta_tail(x, route, j + 1);
        lemma_beta_len(x, route, j + 1);
        lemma_filler_len(x, route, j + 1);
        let ks = hop_ks(x, route, j);
        let tail = spec_beta(x, route, j).skip(ROUTING_INFO_SIZE - PER_HOP_BLOCK_SIZE * j);
        assert(spec_next_block(x, route, j).len() == PER_HOP_BLOCK_SIZE);
        assert forall|t: int| 0 <= t < PER_HOP_BLOCK_SIZE * j implies tail[t] == spec_filler(
            x,
            route,
            j,
        )[t] by {
            let i = ROUTING_INFO_SIZE - PER_HOP_BLOCK_SIZE * j + t;
            let p_inner = spec_next_block(x, route, j) + spec_beta(x, route, j + 1).take(
                ROUTING_INFO_SIZE - PER_HOP_BLOCK_SIZE,
            );
            assert(tail[t] == spec_beta(x, route, j)[i]);
            assert(spec_beta(x, route, j)[i] == p_inner[i] ^ ks[i]);
            assert(p_inner[i] == spec_beta(x, route, j + 1)[i - PER_HOP_BLOCK_SIZE]);
            assert(i - PER_HOP_BLOCK_SIZE == ROUTING_INFO_SIZE - PER_HOP_BLOCK_SIZE * (j + 1)
                + t);
            assert(spec_beta(x, route, j + 1)[i - PER_HOP_BLOCK_SIZE] == spec_beta(
                x,
                route,
                j + 1,
            ).skip(ROUTING_INFO_SIZE - PER_HOP_BLOCK_SIZE * (j + 1))[t]);
            assert(spec_beta(x, route, j + 1)[i - PER_HOP_BLOCK_SIZE] == spec_filler(
                x,
                route,
                j + 1,
            )[t]);
            assert(spec_filler(x, route, j + 1)[t] == (spec_filler(x, route, j) + zero_seq(
                PER_HOP_BLOCK_SIZE as nat,
            ))[t] ^ hop_ks(x, route, j).skip(
                STREAM_OUTPUT_LENGTH - PER_HOP_BLOCK_SIZE * (j + 1),
            )[t]);
            assert(hop_ks(x, route, j).skip(STREAM_OUTPUT_LENGTH - PER_HOP_BLOCK_SIZE * (j + 1))[
                t] == ks[i]);
            assert(spec_filler(x, route, j + 1)[t] == spec_filler(x, route, j)[t] ^ ks[i]);
            crate::bytes::lemma_u8_xor_cancel(spec_filler(x, route, j)[t], ks[i]);
        }
        assert(tail =~= spec_filler(x, route, j));
    }
}

/// What a relay at hop `j` recovers: the address, delay and MAC of hop
/// `j + 1`, and — thanks to the filler invariant — hop `j + 1`'s blob in
/// full.
pub proof fn lemma_unwrap_advances(x: Seq<u8>, route: Seq<RouteElement>, j: int)
    requires
        route_valid(route),
        0 <= j < route.len() - 1,
    ensures
        ({
            let d = spec_unwrap_bytes(spec_beta(x, route, j), hop_stream_key(x, route, j));
            &&& d.subrange(0, NODE_ADDRESS_LENGTH as int) == route[j + 1].address_spec()
            &&& d.subrange(NODE_ADDRESS_LENGTH as int, (NODE_ADDRESS_LENGTH + 8) as int)
                == be_u64_bytes(route[j + 1].delay_spec())
            &&& d.subrange((NODE_ADDRESS_LENGTH + 8) as int, PER_HOP_BLOCK_SIZE as int)
                == spec_gamma(x, route, j + 1)
            &&& d.subrange(PER_HOP_BLOCK_SIZE as int, STREAM_OUTPUT_LENGTH as int) == spec_beta(
                x,
                route,
                j + 1,
            )
        }),
{
    crate::constants::lemma_per_hop_block_product(j);
    crate::constants::lemma_per_hop_block_product(j + 1);
    lemma_beta_len(x, route, j);
    lemma_beta_len(x, route, j + 1);
    lemma_filler_len(x, route, j);
    lemma_filler_len(x, route, j + 1);
    assert(1 <= route.len() <= 5);
    let ks = hop_ks(x, route, j);
    let p_inner = spec_next_block(x, route, j) + spec_beta(x, route, j + 1).take(
        ROUTING_INFO_SIZE - PER_HOP_BLOCK_SIZE,
    );
    let d = spec_unwrap_bytes(spec_beta(x, route, j), hop_stream_key(x, route, j));
    assert(spec_next_block(x, route, j).len() == PER_HOP_BLOCK_SIZE);
    assert(p_inner.len() == ROUTING_INFO_SIZE);
    assert forall|i: int| 0 <= i < ROUTING_INFO_SIZE implies d[i] == p_inner[i] by {
        assert(d[i] == spec_beta(x, route, j)[i] ^ ks[i]);
        assert(spec_beta(x, route, j)[i] == p_inner[i] ^ ks[i]);
        crate::bytes::lemma_u8_xor_cancel(p_inner[i], ks[i]);
    }
    assert forall|i: int| ROUTING_INFO_SIZE <= i < STREAM_OUTPUT_LENGTH implies d[i] == ks[i] by {
        assert((spec_beta(x, route, j) + zero_seq(PER_HOP_BLOCK_SIZE as nat))[i] == 0u8);
        crate::bytes::lemma_u8_xor_cancel(ks[i], 0u8);
    }
    assert(d.subrange(0, NODE_ADDRESS_LENGTH as int) =~= route[j + 1].address_spec());
    assert(d.subrange(NODE_ADDRESS_LENGTH as int, (NODE_ADDRESS_LENGTH + 8) as int)
        =~= be_u64_bytes(route[j + 1].delay_spec()));
    assert(d.subrange((NODE_ADDRESS_LENGTH + 8) as int, PER_HOP_BLOCK_SIZE as int) =~= spec_gamma(
        x,
        route,
        j + 1,
    ));
    assert forall|t: int| 0 <= t < ROUTING_INFO_SIZE implies d.subrange(
        PER_HOP_BLOCK_SIZE as int,
        STREAM_OUTPUT_LENGTH as int,
    )[t] == spec_beta(x, route, j + 1)[t] by {
        assert(d.subrange(PER_HOP_BLOCK_SIZE as int, STREAM_OUTPUT_LENGTH as int)[t] == d[
            PER_HOP_BLOCK_SIZE + t]);
        if t < ROUTING_INFO_SIZE - PER_HOP_BLOCK_SIZE {
            assert(d[PER_HOP_BLOCK_SIZE + t] == p_inner[PER_HOP_BLOCK_SIZE + t]);
            assert(p_inner[PER_HOP_BLOCK_SIZE + t] == spec_beta(x, route, j + 1)[t]);
        } else {
            lemma_beta_tail(x, route, j + 1);
            let u = t - (ROUTING_INFO_SIZE - PER_HOP_BLOCK_SIZE);
            assert(d[PER_HOP_BLOCK_SIZE + t] == ks[ROUTING_INFO_SIZE + u]);
            assert(spec_beta(x, route, j + 1)[t] == spec_beta(x, route, j + 1).skip(
                ROUTING_INFO_SIZE - PER_HOP_BLOCK_SIZE * (j + 1),
            )[PER_HOP_BLOCK_SIZE * j + u]);
            assert(spec_beta(x, route, j + 1)[t] == spec_filler(x, route, j + 1)[
                PER_HOP_BLOCK_SIZE * j + u]);
            assert(spec_filler(x, route, j + 1)[PER_HOP_BLOCK_SIZE * j + u] == (spec_filler(
                x,
                route,
                j,
            ) + zero_seq(PER_HOP_BLOCK_SIZE as nat))[PER_HOP_BLOCK_SIZE * j + u] ^ hop_ks(
                x,
                route,
                j,
            ).skip(STREAM_OUTPUT_LENGTH - PER_HOP_BLOCK_SIZE * (j + 1))[PER_HOP_BLOCK_SIZE * j
                + u]);
            assert((spec_filler(x, route, j) + zero_seq(PER_HOP_BLOCK_SIZE as nat))[
                PER_HOP_BLOCK_SIZE * j + u] == 0u8);
            assert(hop_ks(x, route, j).skip(STREAM_OUTPUT_LENGTH - PER_HOP_BLOCK_SIZE * (j + 1))[
                PER_HOP_BLOCK_SIZE * j + u] == ks[ROUTING_INFO_SIZE + u]);
            crate::bytes::lemma_u8_xor_cancel(ks[ROUTING_INFO_SIZE + u], 0u8);
        }
    }
    assert(d.subrange(PER_HOP_BLOCK_SIZE as int, STREAM_OUTPUT_LENGTH as int) =~= spec_beta(
        x,
        route,
        j + 1,
    ));
}

/// At the final hop the decrypted head is the reserved marker.
pub proof fn lemma_unwrap_final(x: Seq<u8>, route: Seq<RouteElement>)
    requires
        route_valid(route),
    ensures
        ({
            let j = route.len() - 1;
            let d = spec_unwrap_bytes(spec_beta(x, route, j), hop_stream_key(x, route, j));
            d.subrange(0, NODE_ADDRESS_LENGTH as int) == final_marker()
        }),
{
    let j = route.len() - 1;
    crate::constants::lemma_per_hop_block_product(j);
    lemma_beta_len(x, route, j);
    assert(1 <= route.len() <= 5);
    assert(spec_final_plain(route).len() == ROUTING_INFO_SIZE - PER_HOP_BLOCK_SIZE * j);
    let d = spec_unwrap_bytes(spec_beta(x, route, j), hop_stream_key(x, route, j));
    let ks = hop_ks(x, route, j);
    assert forall|i: int| 0 <= i < NODE_ADDRESS_LENGTH implies d[i] == final_marker()[i] by {
        assert(d[i] == spec_beta(x, route, j)[i] ^ ks[i]);
        assert(spec_beta(x, route, j)[i] == spec_final_plain(route)[i] ^ ks[i]);
        crate::bytes::lemma_u8_xor_cancel(spec_final_plain(route)[i], ks[i]);
        assert(spec_final_plain(route)[i] == final_marker()[i]);
    }
    assert(d.subrange(0, NODE_ADDRESS_LENGTH as int) =~= final_marker());
}

/// Build the filler of a route from its hop keys.
#[verifier::loop_isolation(false)]
fn build_filler(
    hop_keys: &Vec<HopKeyMaterial>,
    Ghost(x): Ghost<Seq<u8>>,
    Ghost(route): Ghost<Seq<RouteElement>>,
) -> (r: Vec<u8>)
    requires
        hop_keys@.len() == route.len(),
        1 <= route.len() <= 5,
        forall|i: int|
            0 <= i < route.len() ==> (#[trigger] hop_keys@[i]).matches(
                x,
                route_pub_keys(route),
                i,
            ),
    ensures
        r@ == spec_filler(x, route, route.len() - 1),
        r@.len() == PER_HOP_BLOCK_SIZE * (route.len() - 1),
{
    let n = hop_keys.len();
    let iv = zero_bytes(STREAM_CIPHER_IV_SIZE);
    proof {
        assert(iv@ =~= zero_iv());
    }
    let mut filler: Vec<u8> = Vec::new();
    let mut i: usize = 0;
    proof {
        assert(filler@ =~= spec_filler(x, route, 0));
        crate::constants::lemma_per_hop_block_product(0);
    }
    while i < n - 1
        invariant
            0 <= i <= route.len() - 1,
            filler@ == spec_filler(x, route, i as int),
            filler@.len() == 56 * i,
        decreases n - 1 - i,
    {
        let ks = generate_pseudorandom_bytes(
            &hop_keys[i].routing_keys.stream_cipher_key,
            &iv,
            STREAM_OUTPUT_LENGTH,
        );
        let start = STREAM_OUTPUT_LENGTH - (filler.len() + PER_HOP_BLOCK_SIZE);
        let chunk = copy_range(&ks, start, STREAM_OUTPUT_LENGTH);
        let zeros = zero_bytes(PER_HOP_BLOCK_SIZE);
        let extended = concat_bytes(&filler, &zeros);
        let next = xor_bytes(&extended, &chunk);
        proof {
            crate::constants::lemma_per_hop_block_product(i as int);
            crate::constants::lemma_per_hop_block_product(i as int + 1);
            assert(start == STREAM_OUTPUT_LENGTH - PER_HOP_BLOCK_SIZE * (i as int + 1));
            assert(extended@ =~= spec_filler(x, route, i as int) + zero_seq(
                PER_HOP_BLOCK_SIZE as nat,
            ));
            assert(chunk@ =~= hop_ks(x, route, i as int).skip(
                STREAM_OUTPUT_LENGTH - PER_HOP_BLOCK_SIZE * (i as int + 1),
            ));
            assert(next@ =~= spec_filler(x, route, i as int + 1));
            lemma_filler_len(x, route, i as int + 1);
        }
        filler = next;
        i = i + 1;
    }
    proof {
        crate::constants::lemma_per_hop_block_product(route.len() - 1);
    }
    filler
}

/// The final-hop marker as bytes.
pub fn final_marker_bytes() -> (r: Vec<u8>)
    ensures
        r@ == final_marker(),
        r@.len() == NODE_ADDRESS_LENGTH,
{
    let mut r: Vec<u8> = Vec::new();
    let mut i: usize = 0;
    while i < NODE_ADDRESS_LENGTH
        invariant
            i <= NODE_ADDRESS_LENGTH,
            r@.len() == i,
            forall|j: int| 0 <= j < i ==> r@[j] == 255u8,
        decreases NODE_ADDRESS_LENGTH - i,
    {
        r.push(255u8);
        i = i + 1;
    }
    proof {
        assert(r@ =~= final_marker());
    }
    r
}

/// Build the routing header for a route from the sender's hop keys.
#[verifier::loop_isolation(false)]
pub fn build_header(
    x: &Vec<u8>,
    route: &Vec<RouteElement>,
    hop_keys: &Vec<HopKeyMaterial>,
) -> (r: SphinxHeader)
    requires
        x@.len() == GROUP_ELEMENT_LENGTH,
        route_valid(route@),
        hop_keys@.len() == route@.len(),
        forall|i: int|
            0 <= i < route@.len() ==> (#[trigger] hop_keys@[i]).matches(
                x@,
                route_pub_keys(route@),
                i,
            ),
    ensures
        r.wf(),
        r.alpha@ == crate::keys::spec_alpha(x@, route_pub_keys(route@), 0),
        r.beta@ == spec_beta(x@, route@, 0),
        r.gamma@ == spec_gamma(x@, route@, 0),
{
    let n = route.len();
    let iv = zero_bytes(STREAM_CIPHER_IV_SIZE);
    proof {
        assert(iv@ =~= zero_iv());
    }
    let filler = build_filler(hop_keys, Ghost(x@), Ghost(route@));
    let marker = final_marker_bytes();
    proof {
        crate::constants::lemma_per_hop_block_product((n - 1) as int);
    }
    let pad = zero_bytes(ROUTING_INFO_SIZE - PER_HOP_BLOCK_SIZE * (n - 1) - NODE_ADDRESS_LENGTH);
    let plain = concat_bytes(&marker, &pad);
    let ks_last = generate_pseudorandom_bytes(
        &hop_keys[n - 1].routing_keys.stream_cipher_key,
        &iv,
        STREAM_OUTPUT_LENGTH,
    );
    let enc = xor_bytes(&plain, &ks_last);
    let mut beta = concat_bytes(&enc, &filler);
    proof {
        assert(plain@ =~= spec_final_plain(route@));
        assert(beta@ =~= spec_beta(x@, route@, n - 1));
        lemma_beta_len(x@, route@, n - 1);
    }
    let mac_last = compute_keyed_hmac(
        &hop_keys[n - 1].routing_keys.header_integrity_mac_key,
        &beta,
    );
    let mut gamma = copy_range(&mac_last, 0, HEADER_INTEGRITY_MAC_SIZE);
    proof {
        assert(gamma@ =~= spec_gamma(x@, route@, n - 1));
    }
    let mut j: usize = n - 1;
    while j > 0
        invariant
            0 <= j <= route@.len() - 1,
            beta@ == spec_beta(x@, route@, j as int),
            beta@.len() == ROUTING_INFO_SIZE,
            gamma@ == spec_gamma(x@, route@, j as int),
            gamma@.len() == HEADER_INTEGRITY_MAC_SIZE,
        decreases j,
    {
        j = j - 1;
        let delay_bytes = u64_to_be_bytes(route[j + 1].delay_nanos());
        let block_head = concat_bytes(route[j + 1].address(), &delay_bytes);
        let block = concat_bytes(&block_head, &gamma);
        let beta_trunc = copy_range(&beta, 0, ROUTING_INFO_SIZE - PER_HOP_BLOCK_SIZE);
        let inner = concat_bytes(&block, &beta_trunc);
        let ks = generate_pseudorandom_bytes(
            &hop_keys[j].routing_keys.stream_cipher_key,
            &iv,
            STREAM_OUTPUT_LENGTH,
        );
        let next_beta = xor_bytes(&inner, &ks);
        proof {
            assert(inner@ =~= spec_next_block(x@, route@, j as int) + spec_beta(
                x@,
                route@,
                j + 1,
            ).take(ROUTING_INFO_SIZE - PER_HOP_BLOCK_SIZE));
            assert(next_beta@ =~= spec_beta(x@, route@, j as int));
            lemma_beta_len(x@, route@, j as int);
        }
        beta = next_beta;
        let mac = compute_keyed_hmac(&hop_keys[j].routing_keys.header_integrity_mac_key, &beta);
        gamma = copy_range(&mac, 0, HEADER_INTEGRITY_MAC_SIZE);
        proof {
            assert(gamma@ =~= spec_gamma(x@, route@, j as int));
        }
    }
    let alpha = copy_range(&hop_keys[0].alpha, 0, GROUP_ELEMENT_LENGTH);
    proof {
        assert(alpha@ =~= hop_keys@[0].alpha@);
    }
    SphinxHeader { alpha, beta, gamma }
}

/// What a relay's decryption of an extended blob yields: `beta` plus one
/// zero block, XORed with the hop's keystream.
pub open spec fn spec_unwrap_bytes(beta: Seq<u8>, stream_key: Seq<u8>) -> Seq<u8> {
    xor_seq(
        beta + zero_seq(PER_HOP_BLOCK_SIZE as nat),
        prg_bytes(stream_key, zero_iv(), STREAM_OUTPUT_LENGTH as nat),
    )
}

/// Whether `gamma` is the truncated HMAC of `beta` under `mac_key`.
pub open spec fn mac_matches(beta: Seq<u8>, gamma: Seq<u8>, mac_key: Seq<u8>) -> bool {
    gamma == mac_bytes(mac_key, beta).take(HEADER_INTEGRITY_MAC_SIZE as int)
}

/// What one hop's header processing exposes.
pub struct UnwrappedRouting {
    pub next_address: Vec<u8>,
    pub delay_nanos: u64,
    pub next_gamma: Vec<u8>,
    pub next_beta: Vec<u8>,
}

/// Process one header layer under a relay's routing keys: verify the MAC
/// over `beta` before anything is stripped, then decrypt one extended layer
/// and parse the head block.
pub fn process_header(beta: &Vec<u8>, gamma: &Vec<u8>, routing_keys: &RoutingKeys) -> (r: Result<
    UnwrappedRouting,
    SphinxError,
>)
    requires
        routing_keys.wf(),
    ensures
        match r {
            Ok(u) => {
                &&& beta@.len() == ROUTING_INFO_SIZE
                &&& gamma@.len() == HEADER_INTEGRITY_MAC_SIZE
                &&& mac_matches(beta@, gamma@, routing_keys.header_integrity_mac_key@)
                &&& u.next_address@ == spec_unwrap_bytes(
                    beta@,
                    routing_keys.stream_cipher_key@,
                ).subrange(0, NODE_ADDRESS_LENGTH as int)
                &&& u.delay_nanos == be_u64_value(
                    spec_unwrap_bytes(beta@, routing_keys.stream_cipher_key@).subrange(
                        NODE_ADDRESS_LENGTH as int,
                        (NODE_ADDRESS_LENGTH + 8) as int,
                    ),
                )
                &&& u.next_gamma@ == spec_unwrap_bytes(
                    beta@,
                    routing_keys.stream_cipher_key@,
                ).subrange(
                    (NODE_ADDRESS_LENGTH + 8) as int,
                    PER_HOP_BLOCK_SIZE as int,
                )
                &&& u.next_beta@ == spec_unwrap_bytes(
                    beta@,
                    routing_keys.stream_cipher_key@,
                ).subrange(PER_HOP_BLOCK_SIZE as int, STREAM_OUTPUT_LENGTH as int)
                &&& u.next_address@.len() == NODE_ADDRESS_LENGTH
                &&& u.next_gamma@.len() == HEADER_INTEGRITY_MAC_SIZE
                &&& u.next_beta@.len() == ROUTING_INFO_SIZE
            },
            Err(e) => {
                &&& e == SphinxError::InvalidMac
                &&& !(beta@.len() == ROUTING_INFO_SIZE && gamma@.len() == HEADER_INTEGRITY_MAC_SIZE
                    && mac_matches(beta@, gamma@, routing_keys.header_integrity_mac_key@))
            },
        },
{
    if beta.len() != ROUTING_INFO_SIZE || gamma.len() != HEADER_INTEGRITY_MAC_SIZE {
        return Err(SphinxError::InvalidMac);
    }
    let mac = compute_keyed_hmac(&routing_keys.header_integrity_mac_key, beta);
    let expected = copy_range(&mac, 0, HEADER_INTEGRITY_MAC_SIZE);
    if !tags_equal(gamma, &expected) {
        return Err(SphinxError::InvalidMac);
    }
    let zeros = zero_bytes(PER_HOP_BLOCK_SIZE);
    let extended = concat_bytes(beta, &zeros);
    let iv = zero_bytes(STREAM_CIPHER_IV_SIZE);
    proof {
        assert(iv@ =~= zero_iv());
    }
    let ks = generate_pseudorandom_bytes(
        &routing_keys.stream_cipher_key,
        &iv,
        STREAM_OUTPUT_LENGTH,
    );
    let d = xor_bytes(&extended, &ks);
    proof {
        assert(d@ =~= spec_unwrap_bytes(beta@, routing_keys.stream_cipher_key@));
    }
    let next_address = copy_range(&d, 0, NODE_ADDRESS_LENGTH);
    let delay_vec = copy_range(&d, NODE_ADDRESS_LENGTH, NODE_ADDRESS_LENGTH + 8);
    let delay_nanos = be_bytes_to_u64(&delay_vec);
    let next_gamma = copy_range(&d, NODE_ADDRESS_LENGTH + 8, PER_HOP_BLOCK_SIZE);
    let next_beta = copy_range(&d, PER_HOP_BLOCK_SIZE, STREAM_OUTPUT_LENGTH);
    Ok(UnwrappedRouting { next_address, delay_nanos, next_gamma, next_beta })
}

} // verus!
