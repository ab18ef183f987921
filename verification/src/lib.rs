//! The data-integrity core of a minimal blockchain: canonical byte encodings
//! for Outputs, Transactions and Blocks, the digest derived from them, the
//! difficulty predicate on digests, and the proof-of-work search over the
//! 64-bit nonce space.

use vstd::prelude::*;

pub mod block;
pub mod hashable;
pub mod transaction;

verus! {

/// A cryptographic digest, held as a plain byte vector.
pub type BlockHash = Vec<u8>;

/// An account handle: the raw bytes that identify a value recipient.
pub type Address = Vec<u8>;

/// The big-endian 4-byte encoding of a 32-bit integer.
pub open spec fn spec_u32_bytes(v: u32) -> Seq<u8> {
    seq![
        (v >> 24) as u8,
        (v >> 16) as u8,
        (v >> 8) as u8,
        v as u8,
    ]
}

/// Encodes a 32-bit integer as 4 big-endian bytes.
pub fn u32_bytes(v: u32) -> (r: Vec<u8>)
    ensures
        r@ == spec_u32_bytes(v),
{
    let mut r: Vec<u8> = Vec::new();
    r.push(#[verifier::truncate] ((v >> 24) as u8));
    r.push(#[verifier::truncate] ((v >> 16) as u8));
    r.push(#[verifier::truncate] ((v >> 8) as u8));
    r.push(#[verifier::truncate] (v as u8));
    assert(r@ =~= spec_u32_bytes(v));
    r
}

/// The big-endian 8-byte encoding of a 64-bit integer.
pub open spec fn spec_u64_bytes(v: u64) -> Seq<u8> {
    seq![
        (v >> 56) as u8,
        (v >> 48) as u8,
        (v >> 40) as u8,
        (v >> 32) as u8,
        (v >> 24) as u8,
        (v >> 16) as u8,
        (v >> 8) as u8,
        v as u8,
    ]
}

/// Encodes a 64-bit integer as 8 big-endian bytes.
pub fn u64_bytes(v: u64) -> (r: Vec<u8>)
    ensures
        r@ == spec_u64_bytes(v),
{
    let mut r: Vec<u8> = Vec::new();
    r.push(#[verifier::truncate] ((v >> 56) as u8));
    r.push(#[verifier::truncate] ((v >> 48) as u8));
    r.push(#[verifier::truncate] ((v >> 40) as u8));
    r.push(#[verifier::truncate] ((v >> 32) as u8));
    r.push(#[verifier::truncate] ((v >> 24) as u8));
    r.push(#[verifier::truncate] ((v >> 16) as u8));
    r.push(#[verifier::truncate] ((v >> 8) as u8));
    r.push(#[verifier::truncate] (v as u8));
    assert(r@ =~= spec_u64_bytes(v));
    r
}

/// The big-endian 16-byte encoding of a 128-bit integer.
pub open spec fn spec_u128_bytes(v: u128) -> Seq<u8> {
    seq![
        (v >> 120) as u8,
        (v >> 112) as u8,
        (v >> 104) as u8,
        (v >> 96) as u8,
        (v >> 88) as u8,
        (v >> 80) as u8,
        (v >> 72) as u8,
        (v >> 64) as u8,
        (v >> 56) as u8,
        (v >> 48) as u8,
        (v >> 40) as u8,
        (v >> 32) as u8,
        (v >> 24) as u8,
        (v >> 16) as u8,
        (v >> 8) as u8,
        v as u8,
    ]
}

/// Encodes a 128-bit integer as 16 big-endian bytes.
pub fn u128_bytes(v: u128) -> (r: Vec<u8>)
    ensures
        r@ == spec_u128_bytes(v),
{
    let mut r: Vec<u8> = Vec::new();
    r.push(#[verifier::truncate] ((v >> 120) as u8));
    r.push(#[verifier::truncate] ((v >> 112) as u8));
    r.push(#[verifier::truncate] ((v >> 104) as u8));
    r.push(#[verifier::truncate] ((v >> 96) as u8));
    r.push(#[verifier::truncate] ((v >> 88) as u8));
    r.push(#[verifier::truncate] ((v >> 80) as u8));
    r.push(#[verifier::truncate] ((v >> 72) as u8));
    r.push(#[verifier::truncate] ((v >> 64) as u8));
    r.push(#[verifier::truncate] ((v >> 56) as u8));
    r.push(#[verifier::truncate] ((v >> 48) as u8));
    r.push(#[verifier::truncate] ((v >> 40) as u8));
    r.push(#[verifier::truncate] ((v >> 32) as u8));
    r.push(#[verifier::truncate] ((v >> 24) as u8));
    r.push(#[verifier::truncate] ((v >> 16) as u8));
    r.push(#[verifier::truncate] ((v >> 8) as u8));
    r.push(#[verifier::truncate] (v as u8));
    assert(r@ =~= spec_u128_bytes(v));
    r
}

/// The big-endian encoding of a 64-bit integer is injective: equal byte
/// sequences can only come from equal integers.
pub proof fn lemma_u64_bytes_injective(x: u64, y: u64)
    requires
        spec_u64_bytes(x) == spec_u64_bytes(y),
    ensures
        x == y,
{
    assert(spec_u64_bytes(x)[0] == spec_u64_bytes(y)[0]);
    assert(spec_u64_bytes(x)[1] == spec_u64_bytes(y)[1]);
    assert(spec_u64_bytes(x)[2] == spec_u64_bytes(y)[2]);
    assert(spec_u64_bytes(x)[3] == spec_u64_bytes(y)[3]);
    assert(spec_u64_bytes(x)[4] == spec_u64_bytes(y)[4]);
    assert(spec_u64_bytes(x)[5] == spec_u64_bytes(y)[5]);
    assert(spec_u64_bytes(x)[6] == spec_u64_bytes(y)[6]);
    assert(spec_u64_bytes(x)[7] == spec_u64_bytes(y)[7]);
    assert(x == y) by (bit_vector)
        requires
            (x >> 56) as u8 == (y >> 56) as u8,
            (x >> 48) as u8 == (y >> 48) as u8,
            (x >> 40) as u8 == (y >> 40) as u8,
            (x >> 32) as u8 == (y >> 32) as u8,
            (x >> 24) as u8 == (y >> 24) as u8,
            (x >> 16) as u8 == (y >> 16) as u8,
            (x >> 8) as u8 == (y >> 8) as u8,
            x as u8 == y as u8,
    ;
}

/// The leading 16 bytes of a digest, read as one big-endian 128-bit integer.
pub open spec fn spec_leading_u128(h: Seq<u8>) -> u128
    recommends
        h.len() >= 16,
{
    ((h[0] as u128) << 120) | ((h[1] as u128) << 112) | ((h[2] as u128) << 104)
        | ((h[3] as u128) << 96) | ((h[4] as u128) << 88) | ((h[5] as u128) << 80)
        | ((h[6] as u128) << 72) | ((h[7] as u128) << 64) | ((h[8] as u128) << 56)
        | ((h[9] as u128) << 48) | ((h[10] as u128) << 40) | ((h[11] as u128) << 32)
        | ((h[12] as u128) << 24) | ((h[13] as u128) << 16) | ((h[14] as u128) << 8)
        | (h[15] as u128)
}

/// Reads the first 16 bytes of a digest as a big-endian 128-bit integer, the
/// quantity that a difficulty threshold is compared against.
pub fn difficulty_bytes_as_u128(h: &BlockHash) -> (r: u128)
    requires
        h@.len() >= 16,
    ensures
        r == spec_leading_u128(h@),
{
    ((h[0] as u128) << 120) | ((h[1] as u128) << 112) | ((h[2] as u128) << 104)
        | ((h[3] as u128) << 96) | ((h[4] as u128) << 88) | ((h[5] as u128) << 80)
        | ((h[6] as u128) << 72) | ((h[7] as u128) << 64) | ((h[8] as u128) << 56)
        | ((h[9] as u128) << 48) | ((h[10] as u128) << 40) | ((h[11] as u128) << 32)
        | ((h[12] as u128) << 24) | ((h[13] as u128) << 16) | ((h[14] as u128) << 8)
        | (h[15] as u128)
}

/// Appends every byte of `src` to `dst`, in order.
pub fn append_bytes(dst: &mut Vec<u8>, src: &Vec<u8>)
    ensures
        final(dst)@ == old(dst)@ + src@,
{
    let mut i: usize = 0;
    while i < src.len()
        invariant
            i <= src.len(),
            dst@ == old(dst)@ + src@.take(i as int),
        decreases src.len() - i,
    {
        dst.push(src[i]);
        proof {
            assert(src@.take(i as int + 1) =~= src@.take(i as int).push(src@[i as int]));
            assert(dst@ =~= old(dst)@ + src@.take(i as int + 1));
        }
        i = i + 1;
    }
    proof {
        assert(src@.take(src@.len() as int) =~= src@);
    }
}

} // verus!
