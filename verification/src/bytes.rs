//! Byte-sequence helpers: XOR, slicing, concatenation, zero padding,
//! big-endian 64-bit integers, and a tag comparison that does not
//! short-circuit.

use vstd::prelude::*;

verus! {

/// The all-zero byte sequence of length `n`.
pub open spec fn zero_seq(n: nat) -> Seq<u8> {
    Seq::new(n, |i: int| 0u8)
}

/// Pointwise XOR of `a` with a prefix of `b`; the result has `a`'s length.
pub open spec fn xor_seq(a: Seq<u8>, b: Seq<u8>) -> Seq<u8>
    recommends
        a.len() <= b.len(),
{
    Seq::new(a.len(), |i: int| a[i] ^ b[i])
}

/// Clip or zero-extend `s` to exactly `n` bytes.
pub open spec fn fit_bytes(s: Seq<u8>, n: nat) -> Seq<u8> {
    Seq::new(n, |i: int| if 0 <= i < s.len() { s[i] } else { 0u8 })
}

/// The big-endian encoding of a 64-bit value over eight bytes.
pub open spec fn be_u64_bytes(v: u64) -> Seq<u8> {
    seq![
        (v >> 56) as u8,
        (v >> 48) as u8,
        (v >> 40) as u8,
        (v >> 32) as u8,
        (v >> 24) as u8,
        (v >> 16) as u8,
        (v >> 8) as u8,
        v as u8,
    ]
}

/// The 64-bit value read big-endian from eight bytes.
pub open spec fn be_u64_value(s: Seq<u8>) -> u64
    recommends
        s.len() == 8,
{
    ((s[0] as u64) << 56) | ((s[1] as u64) << 48) | ((s[2] as u64) << 40) | ((s[3] as u64) << 32)
        | ((s[4] as u64) << 24) | ((s[5] as u64) << 16) | ((s[6] as u64) << 8) | (s[7] as u64)
}

/// Decoding inverts encoding: the delay a relay reads is the delay the
/// sender wrote.
pub proof fn lemma_be_u64_round_trip(v: u64)
    ensures
        be_u64_value(be_u64_bytes(v)) == v,
{
    assert((((((v >> 56) as u8) as u64) << 56) | ((((v >> 48) as u8) as u64) << 48) | ((((v >> 40)
        as u8) as u64) << 40) | ((((v >> 32) as u8) as u64) << 32) | ((((v >> 24) as u8) as u64)
        << 24) | ((((v >> 16) as u8) as u64) << 16) | ((((v >> 8) as u8) as u64) << 8) | ((v as u8)
        as u64)) == v) by (bit_vector);
}

pub fn zero_bytes(n: usize) -> (r: Vec<u8>)
    ensures
        r@ == zero_seq(n as nat),
        r@.len() == n,
{
    let mut r: Vec<u8> = Vec::new();
    let mut i: usize = 0;
    while i < n
        invariant
            i <= n,
            r@.len() == i,
            forall|j: int| 0 <= j < i ==> r@[j] == 0u8,
        decreases n - i,
    {
        r.push(0u8);
        i = i + 1;
    }
    proof {
        assert(r@ =~= zero_seq(n as nat));
    }
    r
}

pub fn xor_bytes(a: &Vec<u8>, b: &Vec<u8>) -> (r: Vec<u8>)
    requires
        a@.len() <= b@.len(),
    ensures
        r@ == xor_seq(a@, b@),
        r@.len() == a@.len(),
{
    let mut r: Vec<u8> = Vec::new();
    let mut i: usize = 0;
    while i < a.len()
        invariant
            i <= a@.len(),
            a@.len() <= b@.len(),
            r@.len() == i,
            forall|j: int| 0 <= j < i ==> r@[j] == (a@[j] ^ b@[j]),
        decreases a@.len() - i,
    {
        r.push(a[i] ^ b[i]);
        i = i + 1;
    }
    proof {
        assert(r@ =~= xor_seq(a@, b@));
    }
    r
}

pub fn copy_range(v: &Vec<u8>, start: usize, end: usize) -> (r: Vec<u8>)
    requires
        start <= end <= v@.len(),
    ensures
        r@ == v@.subrange(start as int, end as int),
        r@.len() == end - start,
{
    let mut r: Vec<u8> = Vec::new();
    let mut i: usize = start;
    while i < end
        invariant
            start <= i <= end <= v@.len(),
            r@.len() == i - start,
            forall|j: int| 0 <= j < i - start ==> r@[j] == v@[start + j],
        decreases end - i,
    {
        r.push(v[i]);
        i = i + 1;
    }
    proof {
        assert(r@ =~= v@.subrange(start as int, end as int));
    }
    r
}

pub fn concat_bytes(a: &Vec<u8>, b: &Vec<u8>) -> (r: Vec<u8>)
    ensures
        r@ == a@ + b@,
        r@.len() == a@.len() + b@.len(),
{
    let mut r: Vec<u8> = Vec::new();
    let mut i: usize = 0;
    while i < a.len()
        invariant
            i <= a@.len(),
            r@.len() == i,
            forall|j: int| 0 <= j < i ==> r@[j] == a@[j],
        decreases a@.len() - i,
    {
        r.push(a[i]);
        i = i + 1;
    }
    let mut k: usize = 0;
    while k < b.len()
        invariant
            k <= b@.len(),
            r@.len() == a@.len() + k,
            forall|j: int| 0 <= j < a@.len() ==> r@[j] == a@[j],
            forall|j: int| 0 <= j < k ==> r@[a@.len() + j] == b@[j],
        decreases b@.len() - k,
    {
        r.push(b[k]);
        k = k + 1;
    }
    proof {
        assert(r@ =~= a@ + b@);
    }
    r
}

/// Byte-level XOR facts: self-inverse, zero identity, and injectivity.
pub proof fn lemma_u8_xor_cancel(x: u8, y: u8)
    by (bit_vector)
    ensures
        (x ^ y) ^ y == x,
        0u8 ^ x == x,
        x ^ 0u8 == x,
{
}

proof fn lemma_u8_xor_injective(x: u8, y: u8, z: u8)
    by (bit_vector)
    ensures
        (x ^ z) == (y ^ z) ==> x == y,
{
}

/// XOR with the same sequence twice gives back the original.
pub proof fn lemma_xor_seq_involution(a: Seq<u8>, k: Seq<u8>)
    requires
        a.len() <= k.len(),
    ensures
        xor_seq(xor_seq(a, k), k) == a,
{
    assert forall|i: int| 0 <= i < a.len() implies xor_seq(xor_seq(a, k), k)[i] == a[i] by {
        lemma_u8_xor_cancel(a[i], k[i]);
    }
    assert(xor_seq(xor_seq(a, k), k) =~= a);
}

/// XOR with a fixed sequence is injective.
pub proof fn lemma_xor_seq_injective(a: Seq<u8>, b: Seq<u8>, k: Seq<u8>)
    requires
        a.len() == b.len(),
        xor_seq(a, k) == xor_seq(b, k),
    ensures
        a == b,
{
    assert forall|i: int| 0 <= i < a.len() implies a[i] == b[i] by {
        assert(xor_seq(a, k)[i] == a[i] ^ k[i]);
        assert(xor_seq(b, k)[i] == b[i] ^ k[i]);
        assert(xor_seq(a, k)[i] == xor_seq(b, k)[i]);
        lemma_u8_xor_injective(a[i], b[i], k[i]);
    }
    assert(a =~= b);
}

proof fn lemma_or_of_xor_is_zero(acc: u8, x: u8, y: u8)
    by (bit_vector)
    ensures
        ((acc | (x ^ y)) == 0) <==> (acc == 0 && x == y),
{
}

/// Whether two equal-length tags are equal, accumulating a difference mask
/// over every byte rather than returning at the first mismatch.
pub fn tags_equal(a: &Vec<u8>, b: &Vec<u8>) -> (r: bool)
    requires
        a@.len() == b@.len(),
    ensures
        r <==> a@ == b@,
{
    let mut acc: u8 = 0;
    let mut i: usize = 0;
    while i < a.len()
        invariant
            i <= a@.len(),
            a@.len() == b@.len(),
            (acc == 0) <==> (forall|j: int| 0 <= j < i ==> a@[j] == b@[j]),
        decreases a@.len() - i,
    {
        let ghost old_acc = acc;
        acc = acc | (a[i] ^ b[i]);
        proof {
            lemma_or_of_xor_is_zero(old_acc, a@[i as int], b@[i as int]);
        }
        i = i + 1;
    }
    proof {
        if forall|j: int| 0 <= j < a@.len() ==> a@[j] == b@[j] {
            assert(a@ =~= b@);
        }
    }
    acc == 0
}

pub fn u64_to_be_bytes(v: u64) -> (r: Vec<u8>)
    ensures
        r@ == be_u64_bytes(v),
        r@.len() == 8,
{
    let mut r: Vec<u8> = Vec::new();
    r.push((v >> 56) as u8);
    r.push((v >> 48) as u8);
    r.push((v >> 40) as u8);
    r.push((v >> 32) as u8);
    r.push((v >> 24) as u8);
    r.push((v >> 16) as u8);
    r.push((v >> 8) as u8);
    r.push(v as u8);
    proof {
        assert(r@ =~= be_u64_bytes(v));
    }
    r
}

pub fn be_bytes_to_u64(b: &Vec<u8>) -> (r: u64)
    requires
        b@.len() == 8,
    ensures
        r == be_u64_value(b@),
{
    ((b[0] as u64) << 56) | ((b[1] as u64) << 48) | ((b[2] as u64) << 40) | ((b[3] as u64) << 32)
        | ((b[4] as u64) << 24) | ((b[5] as u64) << 16) | ((b[6] as u64) << 8) | (b[7] as u64)
}

} // verus!
