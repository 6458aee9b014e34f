use curve25519_dalek::montgomery::MontgomeryPoint;
use curve25519_dalek::scalar::Scalar;
use sphinx::constants::HEADER_INTEGRITY_MAC_SIZE;
use sphinx::constants::NODE_ADDRESS_LENGTH;
use sphinx::constants::PACKET_LENGTH;
use sphinx::constants::PAYLOAD_CAPACITY;
use sphinx::constants::PAYLOAD_SIZE;
use sphinx::constants::ROUTING_INFO_SIZE;
use sphinx::crypto::compute_keyed_hmac;
use sphinx::crypto::generate_pseudorandom_bytes;
use sphinx::delay::Delay;
use sphinx::header::final_marker_bytes;
use sphinx::payload::recover_destination_and_message;
use sphinx::route::RouteElement;
use sphinx::route::SphinxError;
use sphinx::{create_packet, process_packet, SphinxPacket};

fn base_point_array() -> [u8; 32] {
    let mut b = [0u8; 32];
    b[0] = 9;
    b
}

fn node_secret(seed: u8) -> Vec<u8> {
    let mut s = [seed; 32];
    // keep the scalar canonical enough; any bytes work for from_bytes_mod_order
    s[31] &= 0x0f;
    s.to_vec()
}

fn node_pub_key(secret: &[u8]) -> Vec<u8> {
    let mut s = [0u8; 32];
    s.copy_from_slice(secret);
    let p = MontgomeryPoint(base_point_array()) * Scalar::from_bytes_mod_order(s);
    p.to_bytes().to_vec()
}

fn address(seed: u8) -> Vec<u8> {
    vec![seed; NODE_ADDRESS_LENGTH]
}

/// Three forward relays and a final node, with their secrets.
fn four_hop_route() -> (Vec<RouteElement>, Vec<Vec<u8>>) {
    let secrets: Vec<Vec<u8>> = vec![node_secret(11), node_secret(22), node_secret(33), node_secret(44)];
    let route = vec![
        RouteElement::ForwardHop {
            address: address(1),
            pub_key: node_pub_key(&secrets[0]),
            delay_nanos: 100,
        },
        RouteElement::ForwardHop {
            address: address(2),
            pub_key: node_pub_key(&secrets[1]),
            delay_nanos: 200,
        },
        RouteElement::ForwardHop {
            address: address(3),
            pub_key: node_pub_key(&secrets[2]),
            delay_nanos: 300,
        },
        RouteElement::FinalHop { address: address(9), pub_key: node_pub_key(&secrets[3]) },
    ];
    (route, secrets)
}

fn sender_secret() -> Vec<u8> {
    node_secret(77)
}

#[test]
fn it_generates_output_of_size_10000() {
    let key: Vec<u8> = vec![1, 2, 3, 4, 5, 6, 7, 8, 9, 10, 11, 12, 13, 14, 15, 16];
    let iv: Vec<u8> = vec![0, 0, 0, 0, 0, 0, 0, 0, 0, 0, 0, 0, 0, 0, 0, 0];

    let rand_bytes = generate_pseudorandom_bytes(&key, &iv, 10000);
    assert_eq!(10000, rand_bytes.len());
}

#[test]
fn keystream_matches_the_aes_ctr_reference_vector() {
    // NIST SP 800-38A, CTR-AES128.Encrypt: the first output block is the
    // block cipher applied to the initial counter.
    let key: Vec<u8> = vec![
        0x2b, 0x7e, 0x15, 0x16, 0x28, 0xae, 0xd2, 0xa6, 0xab, 0xf7, 0x15, 0x88, 0x09, 0xcf,
        0x4f, 0x3c,
    ];
    let iv: Vec<u8> = vec![
        0xf0, 0xf1, 0xf2, 0xf3, 0xf4, 0xf5, 0xf6, 0xf7, 0xf8, 0xf9, 0xfa, 0xfb, 0xfc, 0xfd,
        0xfe, 0xff,
    ];
    let expected: Vec<u8> = vec![
        0xec, 0x8c, 0xdf, 0x73, 0x98, 0x60, 0x7c, 0xb0, 0xf2, 0xd2, 0x16, 0x75, 0xea, 0x9e,
        0xa1, 0xe4,
    ];
    assert_eq!(expected, generate_pseudorandom_bytes(&key, &iv, 16));
}

#[test]
fn hmac_matches_the_rfc_4231_reference_vector() {
    let key: Vec<u8> = vec![0x0b; 20];
    let data: Vec<u8> = b"Hi There".to_vec();
    let expected: Vec<u8> = vec![
        0xb0, 0x34, 0x4c, 0x61, 0xd8, 0xdb, 0x38, 0x53, 0x5c, 0xa8, 0xaf, 0xce, 0xaf, 0x0b,
        0xf1, 0x2b, 0x88, 0x1d, 0xc2, 0x00, 0xc9, 0x83, 0x3d, 0xa7, 0x26, 0xe9, 0x37, 0x6c,
        0x2e, 0x32, 0xcf, 0xf7,
    ];
    assert_eq!(expected, compute_keyed_hmac(&key, &data));
}

#[test]
fn serialized_packet_length_is_constant() {
    assert_eq!(1352, PACKET_LENGTH);
    let (route, _) = four_hop_route();
    let packet = create_packet(&sender_secret(), &b"hello".to_vec(), &route).unwrap();
    assert_eq!(PACKET_LENGTH, packet.to_bytes().len());

    let short_route = vec![route_final_only()];
    let packet2 = create_packet(&sender_secret(), &Vec::new(), &short_route).unwrap();
    assert_eq!(PACKET_LENGTH, packet2.to_bytes().len());
}

#[test]
fn empty_message_round_trips() {
    let secret = node_secret(44);
    let route = vec![RouteElement::FinalHop { address: address(9), pub_key: node_pub_key(&secret) }];
    let packet = create_packet(&sender_secret(), &Vec::new(), &route).unwrap();
    let (p, _, _) = process_packet(&packet, &secret).unwrap();
    let (dest, message) = recover_destination_and_message(&p.payload).unwrap();
    assert_eq!(address(9), dest);
    assert!(message.is_empty());
}

fn route_final_only() -> RouteElement {
    RouteElement::FinalHop { address: address(9), pub_key: node_pub_key(&node_secret(44)) }
}

#[test]
fn round_trip_three_forward_hops_recovers_message() {
    let (route, secrets) = four_hop_route();
    let packet = create_packet(&sender_secret(), &b"hello".to_vec(), &route).unwrap();

    let (p1, a0, d0) = process_packet(&packet, &secrets[0]).unwrap();
    assert_eq!(address(2), a0);
    assert_eq!(200, d0);
    let (p2, a1, d1) = process_packet(&p1, &secrets[1]).unwrap();
    assert_eq!(address(3), a1);
    assert_eq!(300, d1);
    let (p3, a2, d2) = process_packet(&p2, &secrets[2]).unwrap();
    assert_eq!(address(9), a2);
    assert_eq!(0, d2);
    let (p4, a3, _d3) = process_packet(&p3, &secrets[3]).unwrap();
    assert_eq!(final_marker_bytes(), a3);

    let (dest, message) = recover_destination_and_message(&p4.payload).unwrap();
    assert_eq!(address(9), dest);
    assert_eq!(b"hello".to_vec(), message);
}

#[test]
fn single_hop_route_recovers_message() {
    let secret = node_secret(44);
    let route = vec![RouteElement::FinalHop { address: address(9), pub_key: node_pub_key(&secret) }];
    let packet = create_packet(&sender_secret(), &b"direct".to_vec(), &route).unwrap();

    let (p, addr, _delay) = process_packet(&packet, &secret).unwrap();
    assert_eq!(final_marker_bytes(), addr);
    let (dest, message) = recover_destination_and_message(&p.payload).unwrap();
    assert_eq!(address(9), dest);
    assert_eq!(b"direct".to_vec(), message);
}

#[test]
fn bit_flip_in_beta_is_rejected_at_that_hop() {
    let (route, secrets) = four_hop_route();
    let mut packet = create_packet(&sender_secret(), &b"hello".to_vec(), &route).unwrap();
    packet.header.beta[0] ^= 1;
    assert_eq!(Err(SphinxError::InvalidMac), process_packet(&packet, &secrets[0]).map(|_| ()));
}

#[test]
fn bit_flip_in_gamma_is_rejected_at_that_hop() {
    let (route, secrets) = four_hop_route();
    let mut packet = create_packet(&sender_secret(), &b"hello".to_vec(), &route).unwrap();
    packet.header.gamma[15] ^= 0x80;
    assert_eq!(Err(SphinxError::InvalidMac), process_packet(&packet, &secrets[0]).map(|_| ()));
}

#[test]
fn bit_flip_at_a_later_hop_is_rejected_there() {
    let (route, secrets) = four_hop_route();
    let packet = create_packet(&sender_secret(), &b"hello".to_vec(), &route).unwrap();
    let (mut p1, _, _) = process_packet(&packet, &secrets[0]).unwrap();
    p1.header.beta[ROUTING_INFO_SIZE - 1] ^= 4;
    assert_eq!(Err(SphinxError::InvalidMac), process_packet(&p1, &secrets[1]).map(|_| ()));
}

#[test]
fn swapped_alpha_from_another_packet_is_rejected() {
    let (route, secrets) = four_hop_route();
    let packet = create_packet(&sender_secret(), &b"hello".to_vec(), &route).unwrap();
    let other = create_packet(&node_secret(55), &b"hello".to_vec(), &route).unwrap();
    let franken = SphinxPacket {
        header: sphinx::header::SphinxHeader {
            alpha: other.header.alpha,
            beta: packet.header.beta,
            gamma: packet.header.gamma,
        },
        payload: packet.payload,
    };
    assert_eq!(Err(SphinxError::InvalidMac), process_packet(&franken, &secrets[0]).map(|_| ()));
}

#[test]
fn message_of_exactly_the_capacity_round_trips() {
    let secret = node_secret(44);
    let route = vec![RouteElement::FinalHop { address: address(9), pub_key: node_pub_key(&secret) }];
    let mut message = vec![0xabu8; PAYLOAD_CAPACITY];
    message[PAYLOAD_CAPACITY - 1] = 7; // not a zero byte, so stripping is exact
    let packet = create_packet(&sender_secret(), &message, &route).unwrap();
    let (p, _, _) = process_packet(&packet, &secret).unwrap();
    let (_, recovered) = recover_destination_and_message(&p.payload).unwrap();
    assert_eq!(message, recovered);
}

#[test]
fn message_one_byte_over_capacity_is_rejected() {
    let secret = node_secret(44);
    let route = vec![RouteElement::FinalHop { address: address(9), pub_key: node_pub_key(&secret) }];
    let message = vec![0xabu8; PAYLOAD_CAPACITY + 1];
    assert_eq!(
        Err(SphinxError::PayloadTooLarge),
        create_packet(&sender_secret(), &message, &route).map(|_| ())
    );
}

#[test]
fn same_secret_and_route_give_identical_headers_and_different_payloads() {
    let (route, _) = four_hop_route();
    let p1 = create_packet(&sender_secret(), &b"first message".to_vec(), &route).unwrap();
    let p2 = create_packet(&sender_secret(), &b"second one".to_vec(), &route).unwrap();
    assert_eq!(p1.header.alpha, p2.header.alpha);
    assert_eq!(p1.header.beta, p2.header.beta);
    assert_eq!(p1.header.gamma, p2.header.gamma);
    assert_ne!(p1.payload, p2.payload);
}

#[test]
fn create_packet_is_bitwise_deterministic() {
    let (route, _) = four_hop_route();
    let p1 = create_packet(&sender_secret(), &b"hello".to_vec(), &route).unwrap();
    let (route_again, _) = four_hop_route();
    let p2 = create_packet(&sender_secret(), &b"hello".to_vec(), &route_again).unwrap();
    assert_eq!(p1.to_bytes(), p2.to_bytes());
}

#[test]
fn serialization_round_trips() {
    let (route, secrets) = four_hop_route();
    let packet = create_packet(&sender_secret(), &b"hello".to_vec(), &route).unwrap();
    let bytes = packet.to_bytes();
    let decoded = SphinxPacket::from_bytes(&bytes).unwrap();
    assert_eq!(bytes, decoded.to_bytes());
    // and the decoded packet still processes
    let (_, addr, _) = process_packet(&decoded, &secrets[0]).unwrap();
    assert_eq!(address(2), addr);
}

#[test]
fn wrong_length_bytes_do_not_decode() {
    let bytes = vec![0u8; PACKET_LENGTH - 1];
    assert_eq!(Err(SphinxError::MalformedPoint), SphinxPacket::from_bytes(&bytes).map(|_| ()));
}

#[test]
fn empty_route_is_rejected() {
    let route: Vec<RouteElement> = Vec::new();
    assert_eq!(
        Err(SphinxError::EmptyRoute),
        create_packet(&sender_secret(), &b"hello".to_vec(), &route).map(|_| ())
    );
}

#[test]
fn route_not_ending_in_final_hop_is_rejected() {
    let secret = node_secret(11);
    let route = vec![RouteElement::ForwardHop {
        address: address(1),
        pub_key: node_pub_key(&secret),
        delay_nanos: 5,
    }];
    assert_eq!(
        Err(SphinxError::InvalidRouteShape),
        create_packet(&sender_secret(), &b"hello".to_vec(), &route).map(|_| ())
    );
}

#[test]
fn final_hop_in_the_middle_is_rejected() {
    let secret = node_secret(11);
    let route = vec![
        RouteElement::FinalHop { address: address(1), pub_key: node_pub_key(&secret) },
        RouteElement::FinalHop { address: address(2), pub_key: node_pub_key(&secret) },
    ];
    assert_eq!(
        Err(SphinxError::InvalidRouteShape),
        create_packet(&sender_secret(), &b"hello".to_vec(), &route).map(|_| ())
    );
}

#[test]
fn route_longer_than_the_maximum_is_rejected() {
    let mut route = Vec::new();
    for i in 0..5u8 {
        route.push(RouteElement::ForwardHop {
            address: address(i),
            pub_key: node_pub_key(&node_secret(i + 1)),
            delay_nanos: 5,
        });
    }
    route.push(route_final_only());
    assert_eq!(
        Err(SphinxError::RouteTooLong),
        create_packet(&sender_secret(), &b"hello".to_vec(), &route).map(|_| ())
    );
}

#[test]
fn malformed_alpha_is_reported_as_malformed_point() {
    let (route, secrets) = four_hop_route();
    let mut packet = create_packet(&sender_secret(), &b"hello".to_vec(), &route).unwrap();
    packet.header.alpha.pop();
    assert_eq!(Err(SphinxError::MalformedPoint), process_packet(&packet, &secrets[0]).map(|_| ()));
}

#[test]
fn intermediate_payload_is_full_size_and_not_the_plaintext() {
    let (route, secrets) = four_hop_route();
    let packet = create_packet(&sender_secret(), &b"hello".to_vec(), &route).unwrap();
    assert_eq!(PAYLOAD_SIZE, packet.payload.len());
    let (p1, _, _) = process_packet(&packet, &secrets[0]).unwrap();
    assert_eq!(PAYLOAD_SIZE, p1.payload.len());
    // an intermediate hop must not see a well-formed plaintext
    assert!(recover_destination_and_message(&p1.payload).is_none() || p1.payload[0] != 0);
}

#[test]
fn delay_serialization_is_big_endian_and_round_trips() {
    let d = Delay::new_from_nanos(0x0102030405060708);
    let bytes = d.to_bytes();
    assert_eq!(vec![1u8, 2, 3, 4, 5, 6, 7, 8], bytes);
    let back = Delay::from_bytes(&bytes);
    assert_eq!(d.to_nanos(), back.to_nanos());

    let gamma_sized = Delay::new_from_nanos(1);
    assert_eq!(vec![0u8, 0, 0, 0, 0, 0, 0, 1], gamma_sized.to_bytes());
}

#[test]
fn gamma_has_the_mac_size() {
    let (route, _) = four_hop_route();
    let packet = create_packet(&sender_secret(), &b"hello".to_vec(), &route).unwrap();
    assert_eq!(HEADER_INTEGRITY_MAC_SIZE, packet.header.gamma.len());
    assert_eq!(ROUTING_INFO_SIZE, packet.header.beta.len());
}
