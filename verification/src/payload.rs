//! The layered payload.
//!
//! The sender pads the message with a prefix (one zero byte and the
//! destination address) and zeros on the right, then applies one
//! stream-cipher layer per hop in reverse route order.  Each relay peels one
//! layer; at the final hop the plaintext starts with the prefix, and the
//! destination strips it and the zero padding to recover the message.

use vstd::prelude::*;

use crate::bytes::concat_bytes;
use crate::bytes::copy_range;
use crate::bytes::xor_bytes;
use crate::bytes::xor_seq;
use crate::bytes::zero_bytes;
use crate::bytes::zero_seq;
use crate::constants::NODE_ADDRESS_LENGTH;
use crate::constants::PAYLOAD_CAPACITY;
use crate::constants::PAYLOAD_PREFIX_LENGTH;
use crate::constants::PAYLOAD_SIZE;
use crate::constants::STREAM_CIPHER_IV_SIZE;
use crate::constants::STREAM_CIPHER_KEY_SIZE;
use crate::crypto::generate_pseudorandom_bytes;
use crate::crypto::prg_bytes;
use crate::header::zero_iv;
use crate::keys::spec_payload_key;
use crate::keys::spec_shared_key;
use crate::keys::HopKeyMaterial;
use crate::route::route_pub_keys;
use crate::route::route_valid;
use crate::route::RouteElement;

verus! {

/// The keystream a payload layer is XORed with.
pub open spec fn payload_keystream(key: Seq<u8>) -> Seq<u8> {
    prg_bytes(key, zero_iv(), PAYLOAD_SIZE as nat)
}

/// The payload key of hop `j` in the sender's chain.
pub open spec fn hop_payload_key(x: Seq<u8>, route: Seq<RouteElement>, j: int) -> Seq<u8> {
    spec_payload_key(spec_shared_key(x, route_pub_keys(route), j))
}

/// The padded cleartext payload: a zero byte, the destination address, the
/// message, and zeros up to the fixed size.
pub open spec fn spec_payload_plain(message: Seq<u8>, dest: Seq<u8>) -> Seq<u8>
    recommends
        message.len() <= PAYLOAD_CAPACITY,
        dest.len() == NODE_ADDRESS_LENGTH,
{
    seq![0u8] + dest + message + zero_seq((PAYLOAD_CAPACITY - message.len()) as nat)
}

/// The payload as hop `j` receives it: the plaintext under the layers of
/// hops `j`, `j + 1`, ..., `n - 1`.  At `j == n` this is the plaintext
/// itself; at `j == 0` the transmitted payload.
pub open spec fn spec_payload_layer(
    x: Seq<u8>,
    route: Seq<RouteElement>,
    message: Seq<u8>,
    j: int,
) -> Seq<u8>
    decreases route.len() - j,
{
    if j >= route.len() {
        spec_payload_plain(message, route[route.len() - 1].address_spec())
    } else {
        xor_seq(
            spec_payload_layer(x, route, message, j + 1),
            payload_keystream(hop_payload_key(x, route, j)),
        )
    }
}

pub proof fn lemma_payload_layer_len(
    x: Seq<u8>,
    route: Seq<RouteElement>,
    message: Seq<u8>,
    j: int,
)
    requires
        route.len() >= 1,
        message.len() <= PAYLOAD_CAPACITY,
        route[route.len() - 1].wf(),
        0 <= j <= route.len(),
    ensures
        spec_payload_layer(x, route, message, j).len() == PAYLOAD_SIZE,
    decreases route.len() - j,
{
    if j < route.len() {
        lemma_payload_layer_len(x, route, message, j + 1);
    }
}

/// Pad the message and apply every hop's payload layer, innermost first.
#[verifier::loop_isolation(false)]
pub fn build_payload(
    message: &Vec<u8>,
    route: &Vec<RouteElement>,
    hop_keys: &Vec<HopKeyMaterial>,
    Ghost(x): Ghost<Seq<u8>>,
) -> (r: Vec<u8>)
    requires
        message@.len() <= PAYLOAD_CAPACITY,
        route_valid(route@),
        hop_keys@.len() == route@.len(),
        forall|i: int|
            0 <= i < route@.len() ==> (#[trigger] hop_keys@[i]).matches(
                x,
                route_pub_keys(route@),
                i,
            ),
    ensures
        r@ == spec_payload_layer(x, route@, message@, 0),
        r@.len() == PAYLOAD_SIZE,
{
    let n = route.len();
    let mut zero_prefix: Vec<u8> = Vec::new();
    zero_prefix.push(0u8);
    let head = concat_bytes(&zero_prefix, route[n - 1].address());
    let with_message = concat_bytes(&head, message);
    let padding = zero_bytes(PAYLOAD_CAPACITY - message.len());
    let mut p = concat_bytes(&with_message, &padding);
    proof {
        assert(p@ =~= spec_payload_plain(message@, route@[n - 1].address_spec()));
        assert(p@ =~= spec_payload_layer(x, route@, message@, n as int));
    }
    let iv = zero_bytes(STREAM_CIPHER_IV_SIZE);
    proof {
        assert(iv@ =~= zero_iv());
    }
    let mut j: usize = n;
    while j > 0
        invariant
            0 <= j <= route@.len(),
            p@ == spec_payload_layer(x, route@, message@, j as int),
            p@.len() == PAYLOAD_SIZE,
        decreases j,
    {
        j = j - 1;
        let ks = generate_pseudorandom_bytes(
            &hop_keys[j].routing_keys.payload_key,
            &iv,
            PAYLOAD_SIZE,
        );
        let next = xor_bytes(&p, &ks);
        proof {
            assert(next@ =~= spec_payload_layer(x, route@, message@, j as int));
        }
        p = next;
    }
    p
}

/// Peel one payload layer under this hop's payload key.
pub fn unwrap_payload(payload: &Vec<u8>, payload_key: &Vec<u8>) -> (r: Vec<u8>)
    requires
        payload@.len() == PAYLOAD_SIZE,
        payload_key@.len() == STREAM_CIPHER_KEY_SIZE,
    ensures
        r@ == xor_seq(payload@, payload_keystream(payload_key@)),
        r@.len() == PAYLOAD_SIZE,
{
    let iv = zero_bytes(STREAM_CIPHER_IV_SIZE);
    proof {
        assert(iv@ =~= zero_iv());
    }
    let ks = generate_pseudorandom_bytes(payload_key, &iv, PAYLOAD_SIZE);
    xor_bytes(payload, &ks)
}

/// `s` with every trailing zero byte removed.
pub open spec fn strip_trailing_zeros(s: Seq<u8>) -> Seq<u8>
    decreases s.len(),
{
    if s.len() == 0 {
        s
    } else if s.last() == 0u8 {
        strip_trailing_zeros(s.drop_last())
    } else {
        s
    }
}

/// Stripping undoes zero padding: a message that does not itself end in a
/// zero byte comes back exactly.
pub proof fn lemma_strip_append_zeros(m: Seq<u8>, z: nat)
    requires
        m.len() == 0 || m.last() != 0u8,
    ensures
        strip_trailing_zeros(m + zero_seq(z)) == m,
    decreases z,
{
    if z == 0 {
        assert(m + zero_seq(z) =~= m);
    } else {
        let s = m + zero_seq(z);
        assert(s.last() == 0u8);
        assert(s.drop_last() =~= m + zero_seq((z - 1) as nat));
        lemma_strip_append_zeros(m, (z - 1) as nat);
    }
}

/// Peeling a layer with the key it was applied with exposes the next
/// layer.
pub proof fn lemma_payload_peel(
    x: Seq<u8>,
    route: Seq<RouteElement>,
    message: Seq<u8>,
    j: int,
)
    requires
        route.len() >= 1,
        route[route.len() - 1].wf(),
        message.len() <= PAYLOAD_CAPACITY,
        0 <= j < route.len(),
    ensures
        xor_seq(
            spec_payload_layer(x, route, message, j),
            payload_keystream(hop_payload_key(x, route, j)),
        ) == spec_payload_layer(x, route, message, j + 1),
{
    lemma_payload_layer_len(x, route, message, j + 1);
    crate::bytes::lemma_xor_seq_involution(
        spec_payload_layer(x, route, message, j + 1),
        payload_keystream(hop_payload_key(x, route, j)),
    );
}

/// Parsing the padded plaintext: the prefix byte is zero, the address
/// follows, and stripping the zero padding returns the message — provided
/// the message does not itself end in a zero byte.
pub proof fn lemma_recover_plain(message: Seq<u8>, dest: Seq<u8>)
    requires
        message.len() <= PAYLOAD_CAPACITY,
        dest.len() == NODE_ADDRESS_LENGTH,
        message.len() == 0 || message.last() != 0u8,
    ensures
        spec_payload_plain(message, dest).len() == PAYLOAD_SIZE,
        spec_payload_plain(message, dest)[0] == 0u8,
        spec_payload_plain(message, dest).subrange(1, PAYLOAD_PREFIX_LENGTH as int) == dest,
        strip_trailing_zeros(spec_payload_plain(message, dest).skip(PAYLOAD_PREFIX_LENGTH as int))
            == message,
{
    let p = spec_payload_plain(message, dest);
    assert(p.subrange(1, PAYLOAD_PREFIX_LENGTH as int) =~= dest);
    assert(p.skip(PAYLOAD_PREFIX_LENGTH as int) =~= message + zero_seq(
        (PAYLOAD_CAPACITY - message.len()) as nat,
    ));
    lemma_strip_append_zeros(message, (PAYLOAD_CAPACITY - message.len()) as nat);
}

proof fn lemma_layers_equal_up(
    x: Seq<u8>,
    route: Seq<RouteElement>,
    m1: Seq<u8>,
    m2: Seq<u8>,
    j: int,
)
    requires
        route.len() >= 1,
        route[route.len() - 1].wf(),
        m1.len() <= PAYLOAD_CAPACITY,
        m2.len() <= PAYLOAD_CAPACITY,
        0 <= j <= route.len(),
        spec_payload_layer(x, route, m1, j) == spec_payload_layer(x, route, m2, j),
    ensures
        spec_payload_layer(x, route, m1, route.len() as int) == spec_payload_layer(
            x,
            route,
            m2,
            route.len() as int,
        ),
    decreases route.len() - j,
{
    if j < route.len() {
        lemma_payload_layer_len(x, route, m1, j + 1);
        lemma_payload_layer_len(x, route, m2, j + 1);
        crate::bytes::lemma_xor_seq_injective(
            spec_payload_layer(x, route, m1, j + 1),
            spec_payload_layer(x, route, m2, j + 1),
            payload_keystream(hop_payload_key(x, route, j)),
        );
        lemma_layers_equal_up(x, route, m1, m2, j + 1);
    }
}

/// Different messages give different payloads: the layering is injective
/// in the padded plaintext, and zero padding is injective on messages that
/// do not end in a zero byte.
pub proof fn lemma_payloads_differ(
    x: Seq<u8>,
    route: Seq<RouteElement>,
    m1: Seq<u8>,
    m2: Seq<u8>,
)
    requires
        route.len() >= 1,
        route[route.len() - 1].wf(),
        m1.len() <= PAYLOAD_CAPACITY,
        m2.len() <= PAYLOAD_CAPACITY,
        m1.len() == 0 || m1.last() != 0u8,
        m2.len() == 0 || m2.last() != 0u8,
        m1 != m2,
    ensures
        spec_payload_layer(x, route, m1, 0) != spec_payload_layer(x, route, m2, 0),
{
    let dest = route[route.len() - 1].address_spec();
    if spec_payload_layer(x, route, m1, 0) == spec_payload_layer(x, route, m2, 0) {
        lemma_layers_equal_up(x, route, m1, m2, 0);
        let p1 = spec_payload_plain(m1, dest);
        let p2 = spec_payload_plain(m2, dest);
        assert(p1 == p2);
        assert(p1.skip(PAYLOAD_PREFIX_LENGTH as int) =~= m1 + zero_seq(
            (PAYLOAD_CAPACITY - m1.len()) as nat,
        ));
        assert(p2.skip(PAYLOAD_PREFIX_LENGTH as int) =~= m2 + zero_seq(
            (PAYLOAD_CAPACITY - m2.len()) as nat,
        ));
        lemma_strip_append_zeros(m1, (PAYLOAD_CAPACITY - m1.len()) as nat);
        lemma_strip_append_zeros(m2, (PAYLOAD_CAPACITY - m2.len()) as nat);
        assert(m1 == m2);
        assert(false);
    }
}

/// At the final hop: check the padding prefix, read the destination
/// address, and strip the zero padding off the message.
#[verifier::loop_isolation(false)]
pub fn recover_destination_and_message(payload: &Vec<u8>) -> (r: Option<(Vec<u8>, Vec<u8>)>)
    ensures
        match r {
            Some(pair) => {
                &&& payload@.len() == PAYLOAD_SIZE
                &&& payload@[0] == 0u8
                &&& pair.0@ == payload@.subrange(1, PAYLOAD_PREFIX_LENGTH as int)
                &&& pair.1@ == strip_trailing_zeros(
                    payload@.skip(PAYLOAD_PREFIX_LENGTH as int),
                )
            },
            None => !(payload@.len() == PAYLOAD_SIZE && payload@[0] == 0u8),
        },
{
    if payload.len() != PAYLOAD_SIZE {
        return None;
    }
    if payload[0] != 0u8 {
        return None;
    }
    let dest = copy_range(payload, 1, PAYLOAD_PREFIX_LENGTH);
    let mut end: usize = payload.len();
    while end > PAYLOAD_PREFIX_LENGTH && payload[end - 1] == 0u8
        invariant
            PAYLOAD_PREFIX_LENGTH <= end <= payload@.len(),
            strip_trailing_zeros(payload@.skip(PAYLOAD_PREFIX_LENGTH as int))
                == strip_trailing_zeros(
                payload@.subrange(PAYLOAD_PREFIX_LENGTH as int, end as int),
            ),
        decreases end,
    {
        proof {
            let cur = payload@.subrange(PAYLOAD_PREFIX_LENGTH as int, end as int);
            assert(cur.last() == 0u8);
            assert(cur.drop_last() =~= payload@.subrange(
                PAYLOAD_PREFIX_LENGTH as int,
                end - 1,
            ));
        }
        end = end - 1;
    }
    let message = copy_range(payload, PAYLOAD_PREFIX_LENGTH, end);
    proof {
        let cur = payload@.subrange(PAYLOAD_PREFIX_LENGTH as int, end as int);
        if end == PAYLOAD_PREFIX_LENGTH {
            assert(cur.len() == 0);
        } else {
            assert(cur.last() == payload@[end - 1]);
        }
        assert(strip_trailing_zeros(cur) == cur);
    }
    Some((dest, message))
}

} // verus!
