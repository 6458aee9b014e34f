//! Cryptographic primitives: the AES-128-CTR keystream, HMAC-SHA256, and
//! Curve25519 scalar multiplication.
//!
//! Each primitive is reached through one trusted wrapper whose result is
//! named by an uninterpreted spec function: the name records that the result
//! is a function of the wrapper's byte arguments alone.  Everything the rest
//! of the crate proves about keystreams, MACs and blinded group elements goes
//! through these names.  The total (`fit_bytes`-clipped) forms below give the
//! spec model fixed lengths, which the header algebra relies on.

use vstd::prelude::*;

use crate::bytes::fit_bytes;
use crate::constants::GROUP_ELEMENT_LENGTH;
use crate::constants::STREAM_CIPHER_IV_SIZE;
use crate::constants::STREAM_CIPHER_KEY_SIZE;

use aes::cipher::KeyIvInit;
use aes::cipher::StreamCipher;
use hmac::Hmac;
use hmac::Mac;

verus! {

/// The AES-128-CTR keystream of the given length under `key` and `iv`.
pub uninterp spec fn keystream(key: Seq<u8>, iv: Seq<u8>, len: nat) -> Seq<u8>;

/// The 32-byte HMAC-SHA256 tag of `data` under `key`.
pub uninterp spec fn hmac_sha256(key: Seq<u8>, data: Seq<u8>) -> Seq<u8>;

/// The canonical byte form of a 32-byte string reduced modulo the group
/// order.
pub uninterp spec fn scalar_reduce(bytes: Seq<u8>) -> Seq<u8>;

/// The product modulo the group order of two scalars given as 32-byte
/// strings.
pub uninterp spec fn scalar_mul_mod(a: Seq<u8>, b: Seq<u8>) -> Seq<u8>;

/// The compressed Montgomery u-coordinate of `scalar * point`.
pub uninterp spec fn group_mul(scalar: Seq<u8>, point: Seq<u8>) -> Seq<u8>;

/// [`keystream`], clipped to its requested length.
pub open spec fn prg_bytes(key: Seq<u8>, iv: Seq<u8>, len: nat) -> Seq<u8> {
    fit_bytes(keystream(key, iv, len), len)
}

/// [`hmac_sha256`], clipped to 32 bytes.
pub open spec fn mac_bytes(key: Seq<u8>, data: Seq<u8>) -> Seq<u8> {
    fit_bytes(hmac_sha256(key, data), 32)
}

/// [`scalar_reduce`], clipped to 32 bytes.
pub open spec fn reduced_scalar(bytes: Seq<u8>) -> Seq<u8> {
    fit_bytes(scalar_reduce(bytes), 32)
}

/// [`scalar_mul_mod`], clipped to 32 bytes.
pub open spec fn scalar_product(a: Seq<u8>, b: Seq<u8>) -> Seq<u8> {
    fit_bytes(scalar_mul_mod(a, b), 32)
}

/// [`group_mul`], clipped to 32 bytes.
pub open spec fn scalar_mult(scalar: Seq<u8>, point: Seq<u8>) -> Seq<u8> {
    fit_bytes(group_mul(scalar, point), 32)
}

/// The u-coordinate of the Curve25519 base point.
pub open spec fn base_point() -> Seq<u8> {
    Seq::new(32, |i: int| if i == 0 { 9u8 } else { 0u8 })
}

/// Relies on `ctr::Ctr128BE<aes::Aes128>` (`cipher::StreamCipher`): the
/// keystream applied over a zero buffer of the requested length is a
/// function of the 16-byte key and 16-byte IV alone.
#[verifier::external_body]
fn aes_ctr_keystream(key: &Vec<u8>, iv: &Vec<u8>, length: usize) -> (r: Vec<u8>)
    requires
        key@.len() == STREAM_CIPHER_KEY_SIZE,
        iv@.len() == STREAM_CIPHER_IV_SIZE,
    ensures
        r@ == keystream(key@, iv@, length as nat),
        r@.len() == length,
{
    let mut cipher = <ctr::Ctr128BE<aes::Aes128> as KeyIvInit>::new_from_slices(
        key.as_slice(),
        iv.as_slice(),
    ).expect("key and IV are 16 bytes");
    let mut data = vec![0u8; length];
    cipher.apply_keystream(&mut data);
    data
}

/// Relies on `hmac::Hmac<sha2::Sha256>` (`digest::Mac`): the 32-byte tag is
/// a function of the key (of any length) and the data alone.
#[verifier::external_body]
fn hmac_sha256_tag(key: &Vec<u8>, data: &Vec<u8>) -> (r: Vec<u8>)
    ensures
        r@ == hmac_sha256(key@, data@),
        r@.len() == 32,
{
    let mut mac = <Hmac<sha2::Sha256> as hmac::KeyInit>::new_from_slice(key.as_slice())
        .expect("HMAC accepts keys of any length");
    mac.update(data.as_slice());
    mac.finalize().into_bytes().to_vec()
}

/// Relies on `curve25519_dalek`: `MontgomeryPoint * Scalar` (with the scalar
/// bytes first reduced by `Scalar::from_bytes_mod_order`) is a function of
/// the two 32-byte strings alone.
#[verifier::external_body]
fn curve_scalar_mult(scalar: &Vec<u8>, point: &Vec<u8>) -> (r: Vec<u8>)
    requires
        scalar@.len() == GROUP_ELEMENT_LENGTH,
        point@.len() == GROUP_ELEMENT_LENGTH,
    ensures
        r@ == group_mul(scalar@, point@),
        r@.len() == GROUP_ELEMENT_LENGTH,
{
    let mut s = [0u8; 32];
    s.copy_from_slice(scalar.as_slice());
    let mut p = [0u8; 32];
    p.copy_from_slice(point.as_slice());
    let product = curve25519_dalek::montgomery::MontgomeryPoint(p)
        * curve25519_dalek::scalar::Scalar::from_bytes_mod_order(s);
    product.to_bytes().to_vec()
}

/// Relies on `curve25519_dalek::scalar::Scalar::from_bytes_mod_order` and
/// `Scalar::to_bytes`: the canonical reduced form of 32 bytes modulo the
/// group order is a function of those bytes alone.
#[verifier::external_body]
fn curve_scalar_reduce(bytes: &Vec<u8>) -> (r: Vec<u8>)
    requires
        bytes@.len() == GROUP_ELEMENT_LENGTH,
    ensures
        r@ == scalar_reduce(bytes@),
        r@.len() == GROUP_ELEMENT_LENGTH,
{
    let mut b = [0u8; 32];
    b.copy_from_slice(bytes.as_slice());
    curve25519_dalek::scalar::Scalar::from_bytes_mod_order(b).to_bytes().to_vec()
}

/// Relies on `curve25519_dalek::scalar::Scalar`'s `Mul`: the product modulo
/// the group order of two scalars (each read by `from_bytes_mod_order`) is a
/// function of the two 32-byte strings alone.
#[verifier::external_body]
fn curve_scalar_mul_mod(a: &Vec<u8>, b: &Vec<u8>) -> (r: Vec<u8>)
    requires
        a@.len() == GROUP_ELEMENT_LENGTH,
        b@.len() == GROUP_ELEMENT_LENGTH,
    ensures
        r@ == scalar_mul_mod(a@, b@),
        r@.len() == GROUP_ELEMENT_LENGTH,
{
    let mut x = [0u8; 32];
    x.copy_from_slice(a.as_slice());
    let mut y = [0u8; 32];
    y.copy_from_slice(b.as_slice());
    let product = curve25519_dalek::scalar::Scalar::from_bytes_mod_order(x)
        * curve25519_dalek::scalar::Scalar::from_bytes_mod_order(y);
    product.to_bytes().to_vec()
}

/// AES-128-CTR pseudorandom bytes: the stream-cipher keystream under `key`
/// and `iv`, of exactly the requested length.
pub fn generate_pseudorandom_bytes(key: &Vec<u8>, iv: &Vec<u8>, length: usize) -> (r: Vec<u8>)
    requires
        key@.len() == STREAM_CIPHER_KEY_SIZE,
        iv@.len() == STREAM_CIPHER_IV_SIZE,
    ensures
        r@ == prg_bytes(key@, iv@, length as nat),
        r@.len() == length,
{
    let r = aes_ctr_keystream(key, iv, length);
    proof {
        assert(r@ =~= prg_bytes(key@, iv@, length as nat));
    }
    r
}

/// The 32-byte HMAC-SHA256 tag of `data` under `key`.
pub fn compute_keyed_hmac(key: &Vec<u8>, data: &Vec<u8>) -> (r: Vec<u8>)
    ensures
        r@ == mac_bytes(key@, data@),
        r@.len() == 32,
{
    let r = hmac_sha256_tag(key, data);
    proof {
        assert(r@ =~= mac_bytes(key@, data@));
    }
    r
}

/// `scalar * point` on Curve25519, over 32-byte strings.
pub fn group_element_mult(scalar: &Vec<u8>, point: &Vec<u8>) -> (r: Vec<u8>)
    requires
        scalar@.len() == GROUP_ELEMENT_LENGTH,
        point@.len() == GROUP_ELEMENT_LENGTH,
    ensures
        r@ == scalar_mult(scalar@, point@),
        r@.len() == GROUP_ELEMENT_LENGTH,
{
    let r = curve_scalar_mult(scalar, point);
    proof {
        assert(r@ =~= scalar_mult(scalar@, point@));
    }
    r
}

/// The canonical reduced form of 32 scalar bytes.
pub fn reduce_scalar_bytes(bytes: &Vec<u8>) -> (r: Vec<u8>)
    requires
        bytes@.len() == GROUP_ELEMENT_LENGTH,
    ensures
        r@ == reduced_scalar(bytes@),
        r@.len() == GROUP_ELEMENT_LENGTH,
{
    let r = curve_scalar_reduce(bytes);
    proof {
        assert(r@ =~= reduced_scalar(bytes@));
    }
    r
}

/// The product modulo the group order of two scalars.
pub fn multiply_scalars(a: &Vec<u8>, b: &Vec<u8>) -> (r: Vec<u8>)
    requires
        a@.len() == GROUP_ELEMENT_LENGTH,
        b@.len() == GROUP_ELEMENT_LENGTH,
    ensures
        r@ == scalar_product(a@, b@),
        r@.len() == GROUP_ELEMENT_LENGTH,
{
    let r = curve_scalar_mul_mod(a, b);
    proof {
        assert(r@ =~= scalar_product(a@, b@));
    }
    r
}

/// The u-coordinate of the Curve25519 base point as bytes.
pub fn base_point_bytes() -> (r: Vec<u8>)
    ensures
        r@ == base_point(),
        r@.len() == GROUP_ELEMENT_LENGTH,
{
    let mut r: Vec<u8> = Vec::new();
    r.push(9u8);
    let mut i: usize = 1;
    while i < 32
        invariant
            1 <= i <= 32,
            r@.len() == i,
            r@[0] == 9u8,
            forall|j: int| 1 <= j < i ==> r@[j] == 0u8,
        decreases 32 - i,
    {
        r.push(0u8);
        i = i + 1;
    }
    proof {
        assert(r@ =~= base_point());
    }
    r
}

} // verus!
