//! Deployment parameters of the packet format.
//!
//! Every node of a deployment must agree on these values: they fix the
//! serialized packet layout, and with it the set of packets that are
//! indistinguishable from one another.

use vstd::prelude::*;

verus! {

/// Length in bytes of a compressed Curve25519 group element, and of a scalar.
pub const GROUP_ELEMENT_LENGTH: usize = 32;

/// Length in bytes of a node address inside the routing header.
pub const NODE_ADDRESS_LENGTH: usize = 32;

/// Length in bytes of the big-endian per-hop delay field.
pub const DELAY_LENGTH: usize = 8;

/// Length in bytes of a truncated header-integrity MAC.
pub const HEADER_INTEGRITY_MAC_SIZE: usize = 16;

/// Length in bytes of an AES-128-CTR key.
pub const STREAM_CIPHER_KEY_SIZE: usize = 16;

/// Length in bytes of an AES-128-CTR initialisation vector.
pub const STREAM_CIPHER_IV_SIZE: usize = 16;

/// One cleartext routing block: next address, delay, and the next hop's MAC.
pub const PER_HOP_BLOCK_SIZE: usize = NODE_ADDRESS_LENGTH + DELAY_LENGTH + HEADER_INTEGRITY_MAC_SIZE;

/// The longest route a header can describe.
pub const MAX_ROUTE_LENGTH: usize = 5;

/// Length in bytes of the encrypted routing-information blob of a header:
/// [`MAX_ROUTE_LENGTH`] blocks of [`PER_HOP_BLOCK_SIZE`] bytes each.
pub const ROUTING_INFO_SIZE: usize = 280;

/// Length in bytes of the keystream used on one header layer: the blob plus
/// one extra block, so that a relay recovers the next hop's filler tail.
pub const STREAM_OUTPUT_LENGTH: usize = ROUTING_INFO_SIZE + PER_HOP_BLOCK_SIZE;

/// Length in bytes of the (padded, layered) payload of every packet.
pub const PAYLOAD_SIZE: usize = 1024;

/// The padding prefix of a payload: one zero byte and the destination address.
pub const PAYLOAD_PREFIX_LENGTH: usize = 1 + NODE_ADDRESS_LENGTH;

/// The longest message a payload can carry.
pub const PAYLOAD_CAPACITY: usize = PAYLOAD_SIZE - PAYLOAD_PREFIX_LENGTH;

/// Length in bytes of a serialized packet, the same for every route length
/// up to [`MAX_ROUTE_LENGTH`] and every message up to [`PAYLOAD_CAPACITY`].
pub const PACKET_LENGTH: usize = GROUP_ELEMENT_LENGTH + ROUTING_INFO_SIZE + HEADER_INTEGRITY_MAC_SIZE
    + PAYLOAD_SIZE;

/// Products of the block size with a small count, spelled out so that the
/// solver can treat them linearly.
pub proof fn lemma_per_hop_block_product(k: int)
    ensures
        PER_HOP_BLOCK_SIZE * k == 56 * k,
{
    assert(PER_HOP_BLOCK_SIZE * k == 56 * k);
}

} // verus!
