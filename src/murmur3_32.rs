//! The 32-bit x86 variant of MurmurHash3.
use vstd::prelude::*;
use vstd::wrapping::u32_specs::{wrapping_add, wrapping_mul};

verus! {

pub const MURMUR_C1: u32 = 0xcc9e2d51;

pub const MURMUR_C2: u32 = 0x1b873593;

pub const MURMUR_N: u32 = 0xe6546b64;

pub const FMIX_C1: u32 = 0x85ebca6b;

pub const FMIX_C2: u32 = 0xc2b2ae35;

/// Rotation of a 32-bit word to the left by `r` bits, `0 < r < 32`.
pub open spec fn rotl32(x: u32, r: u32) -> u32 {
    ((x << r) | (x >> (32 - r) as u32)) as u32
}

/// The scrambling applied to each 32-bit block before it is folded in.
pub open spec fn scramble(k: u32) -> u32 {
    wrapping_mul(rotl32(wrapping_mul(k, MURMUR_C1), 15), MURMUR_C2)
}

/// Folding one full block into the running hash.
pub open spec fn fold_block(h: u32, k: u32) -> u32 {
    wrapping_add(wrapping_mul(rotl32(h ^ scramble(k), 13), 5), MURMUR_N)
}

/// The little-endian word made of the four bytes from `i` on.
pub open spec fn le_word(b: Seq<u8>, i: int) -> u32 {
    ((b[i] as u32) | ((b[i + 1] as u32) << 8u32) | ((b[i + 2] as u32) << 16u32) | ((b[i + 3] as u32)
        << 24u32)) as u32
}

/// The little-endian word made of the one to three bytes from `start` to
/// the end.
pub open spec fn tail_word(b: Seq<u8>, start: int) -> u32 {
    let rest = b.len() - start;
    let w2: u32 = if rest > 2 {
        ((b[start + 2] as u32) << 16u32) as u32
    } else {
        0
    };
    let w1: u32 = if rest > 1 {
        ((b[start + 1] as u32) << 8u32) as u32
    } else {
        0
    };
    (w2 | w1 | (b[start] as u32)) as u32
}

/// The running hash after the first `n` full blocks.
pub open spec fn blocks_hash(b: Seq<u8>, seed: u32, n: nat) -> u32
    decreases n,
{
    if n == 0 {
        seed
    } else {
        fold_block(blocks_hash(b, seed, (n - 1) as nat), le_word(b, 4 * (n - 1)))
    }
}

/// The final avalanche.
pub open spec fn fmix32(h: u32) -> u32 {
    let h1 = h ^ (h >> 16u32);
    let h2 = wrapping_mul(h1, FMIX_C1);
    let h3 = h2 ^ (h2 >> 13u32);
    let h4 = wrapping_mul(h3, FMIX_C2);
    h4 ^ (h4 >> 16u32)
}

/// MurmurHash3 x86_32 of `b` with `seed`.
pub open spec fn murmur3_x86_32(b: Seq<u8>, seed: u32) -> u32 {
    let nblocks = b.len() / 4;
    let h = blocks_hash(b, seed, nblocks);
    let h_tail = if b.len() % 4 != 0 {
        h ^ scramble(tail_word(b, 4 * nblocks as int))
    } else {
        h
    };
    fmix32(h_tail ^ (b.len() as u32))
}

fn rotl(x: u32, r: u32) -> (y: u32)
    requires
        0 < r < 32,
    ensures
        y == rotl32(x, r),
{
    (x << r) | (x >> (32 - r))
}

fn scramble_block(k: u32) -> (r: u32)
    ensures
        r == scramble(k),
{
    rotl(k.wrapping_mul(MURMUR_C1), 15).wrapping_mul(MURMUR_C2)
}

/// Hashes `key` with MurmurHash3 x86_32: four-byte little-endian blocks,
/// a trailing partial block, then the final avalanche.
pub fn murmur_hash3_32(key: &[u8], seed: u32) -> (hash: u32)
    ensures
        hash == murmur3_x86_32(key@, seed),
{
    let len = key.len();
    let nblocks = len / 4;
    let mut hash = seed;
    let mut i: usize = 0;
    while i < nblocks
        invariant
            len == key@.len(),
            nblocks == len / 4,
            i <= nblocks,
            hash == blocks_hash(key@, seed, i as nat),
        decreases nblocks - i,
    {
        let j = 4 * i;
        let k: u32 = (key[j] as u32) | ((key[j + 1] as u32) << 8u32) | ((key[j + 2] as u32)
            << 16u32) | ((key[j + 3] as u32) << 24u32);
        assert(k == le_word(key@, j as int));
        hash = rotl(hash ^ scramble_block(k), 13).wrapping_mul(5).wrapping_add(MURMUR_N);
        i = i + 1;
    }
    let rest = len % 4;
    if rest > 0 {
        let start = 4 * nblocks;
        let w2: u32 = if rest > 2 {
            (key[start + 2] as u32) << 16u32
        } else {
            0
        };
        let w1: u32 = if rest > 1 {
            (key[start + 1] as u32) << 8u32
        } else {
            0
        };
        let k: u32 = w2 | w1 | (key[start] as u32);
        assert(k == tail_word(key@, start as int));
        hash = hash ^ scramble_block(k);
    }
    hash = hash ^ (#[verifier::truncate] (len as u32));
    hash = hash ^ (hash >> 16u32);
    hash = hash.wrapping_mul(FMIX_C1);
    hash = hash ^ (hash >> 13u32);
    hash = hash.wrapping_mul(FMIX_C2);
    hash = hash ^ (hash >> 16u32);
    hash
}

} // verus!
