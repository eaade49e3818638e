//! Murmur2 hashing for Kafka partition assignment.
//!
//! The Murmur2 variant used by Kafka's default partitioner (librdkafka and the Java client):
//! little-endian 32-bit blocks, the Kafka seed and the constants of Austin Appleby's original.
use vstd::prelude::*;

verus! {

/// Kafka's Murmur2 seed.
pub const SEED: u32 = 0x9747_b28c;

/// Murmur2 multiplication constant.
pub const M: u32 = 0x5bd1_e995;

/// Murmur2 shift constant.
pub const R: u32 = 24;

/// The input length as the algorithm sees it: the byte count taken modulo 2^32.
pub open spec fn len32(data: Seq<u8>) -> u32 {
    (data.len() % 0x1_0000_0000) as u32
}

/// Number of whole 4-byte blocks that are mixed.
pub open spec fn block_count(data: Seq<u8>) -> nat {
    (len32(data) / 4) as nat
}

/// The `b`-th block of `data`, read as a little-endian 32-bit word.
pub open spec fn block(data: Seq<u8>, b: int) -> u32 {
    (data[4 * b] as u32) | (data[4 * b + 1] as u32) << 8 | (data[4 * b + 2] as u32) << 16 | (data[4
        * b + 3] as u32) << 24
}

/// Mixes one block `k` into the running hash `h`.
pub open spec fn mix_block(h: u32, k: u32) -> u32 {
    let k1 = k.wrapping_mul(M);
    let k2 = k1 ^ (k1 >> R);
    let k3 = k2.wrapping_mul(M);
    h.wrapping_mul(M) ^ k3
}

/// The running hash after the first `n` blocks of `data`, starting from `h0`.
pub open spec fn mix_blocks(data: Seq<u8>, n: nat, h0: u32) -> u32
    decreases n,
{
    if n == 0 {
        h0
    } else {
        mix_block(mix_blocks(data, (n - 1) as nat, h0), block(data, n - 1))
    }
}

/// Mixes the bytes that follow the last whole block (at most three of them) into `h`.
pub open spec fn mix_tail(h: u32, tail: Seq<u8>) -> u32 {
    if tail.len() == 3 {
        (h ^ ((tail[2] as u32) << 16) ^ ((tail[1] as u32) << 8) ^ (tail[0] as u32)).wrapping_mul(M)
    } else if tail.len() == 2 {
        (h ^ ((tail[1] as u32) << 8) ^ (tail[0] as u32)).wrapping_mul(M)
    } else if tail.len() == 1 {
        (h ^ (tail[0] as u32)).wrapping_mul(M)
    } else {
        h
    }
}

/// The final avalanche of Murmur2.
pub open spec fn avalanche(h: u32) -> u32 {
    let h1 = h ^ (h >> 13);
    let h2 = h1.wrapping_mul(M);
    h2 ^ (h2 >> 15)
}

/// Kafka's Murmur2 hash of `data`.
pub open spec fn murmur2(data: Seq<u8>) -> u32 {
    let n = block_count(data);
    avalanche(
        mix_tail(mix_blocks(data, n, SEED ^ len32(data)), data.subrange((4 * n) as int, data.len() as int)),
    )
}

/// The non-negative `i32` that Kafka's Java client derives from a hash: the hash with its
/// sign bit cleared.
pub open spec fn positive(hash: u32) -> i32 {
    (hash % 0x8000_0000) as i32
}

proof fn lemma_len_as_u32(len: usize)
    ensures
        len as u32 == (len as int) % 0x1_0000_0000,
{
    let l = len as u64;
    assert(l as u32 == l % 0x1_0000_0000) by (bit_vector);
}

/// Murmur2 hash of `data`, specialised for little-endian aligned 32-bit blocks, with the seed
/// that librdkafka and the Java Kafka client use.
pub fn murmur2_32(data: &[u8]) -> (hash: u32)
    ensures
        hash == murmur2(data@),
{
    let len = data.len() as u32;
    proof {
        lemma_len_as_u32(data.len());
    }
    let mut h: u32 = SEED ^ len;
    let nblocks = len / 4;
    let mut i: usize = 0;
    let mut b: u32 = 0;
    while b < nblocks
        invariant
            len == len32(data@),
            nblocks == block_count(data@),
            b <= nblocks,
            i == 4 * b,
            4 * nblocks <= len <= data@.len(),
            h == mix_blocks(data@, b as nat, SEED ^ len),
        decreases nblocks - b,
    {
        let k = (data[i] as u32) | (data[i + 1] as u32) << 8 | (data[i + 2] as u32) << 16 | (
        data[i + 3] as u32) << 24;
        assert(k == block(data@, b as int));
        i += 4;
        let mut k = k.wrapping_mul(M);
        k ^= k >> R;
        k = k.wrapping_mul(M);
        h = h.wrapping_mul(M);
        h ^= k;
        b += 1;
    }
    let ghost tail = data@.subrange(i as int, data@.len() as int);
    let rest = data.len() - i;
    if rest == 3 {
        h ^= (data[i + 2] as u32) << 16;
        h ^= (data[i + 1] as u32) << 8;
        h ^= data[i] as u32;
        h = h.wrapping_mul(M);
    } else if rest == 2 {
        h ^= (data[i + 1] as u32) << 8;
        h ^= data[i] as u32;
        h = h.wrapping_mul(M);
    } else if rest == 1 {
        h ^= data[i] as u32;
        h = h.wrapping_mul(M);
    }
    assert(h == mix_tail(mix_blocks(data@, nblocks as nat, SEED ^ len), tail));
    h ^= h >> 13;
    h = h.wrapping_mul(M);
    h ^= h >> 15;
    h
}

/// Clears the sign bit of `hash`, the way Kafka's Java client makes a hash usable as a
/// non-negative `i32`.
pub fn to_positive(hash: u32) -> (r: i32)
    ensures
        r == positive(hash),
        0 <= r,
{
    assert((hash & 0x7fff_ffff) == hash % 0x8000_0000) by (bit_vector);
    (hash & 0x7fff_ffff) as i32
}


/// The inverse of multiplication by `M` modulo 2^32 (`M` is odd).
spec fn unmul(y: u32) -> u32 {
    ((y as nat * 0xe59b19bd) % 0x1_0000_0000) as u32
}

proof fn lemma_unmul(x: u32)
    ensures
        unmul(x.wrapping_mul(M)) == x,
{
    assert((((x as nat * 0x5bd1e995) % 0x1_0000_0000) * 0xe59b19bd) % 0x1_0000_0000 == x)
        by (bit_vector);
}

proof fn lemma_mul_injective(x: u32, y: u32)
    requires
        x.wrapping_mul(M) == y.wrapping_mul(M),
    ensures
        x == y,
{
    lemma_unmul(x);
    lemma_unmul(y);
}

proof fn lemma_xorshift_injective(x: u32, y: u32, r: u32)
    requires
        1 <= r < 32,
        x ^ (x >> r) == y ^ (y >> r),
    ensures
        x == y,
{
    assert(1 <= r < 32 && x ^ (x >> r) == y ^ (y >> r) ==> x == y) by (bit_vector);
}

proof fn lemma_xor_cancel(a: u32, b: u32, c: u32)
    requires
        a ^ c == b ^ c,
    ensures
        a == b,
{
    assert(a ^ c == b ^ c ==> a == b) by (bit_vector);
}

/// Different blocks mixed into the same state give different states.
proof fn lemma_mix_block_injective_in_block(h: u32, k1: u32, k2: u32)
    requires
        mix_block(h, k1) == mix_block(h, k2),
    ensures
        k1 == k2,
{
    let a1 = k1.wrapping_mul(M);
    let a2 = k2.wrapping_mul(M);
    let b1 = a1 ^ (a1 >> R);
    let b2 = a2 ^ (a2 >> R);
    let c1 = b1.wrapping_mul(M);
    let c2 = b2.wrapping_mul(M);
    let g = h.wrapping_mul(M);
    assert(c1 ^ g == c2 ^ g) by (bit_vector)
        requires
            g ^ c1 == g ^ c2,
    ;
    lemma_xor_cancel(c1, c2, g);
    lemma_mul_injective(b1, b2);
    lemma_xorshift_injective(a1, a2, R);
    lemma_mul_injective(k1, k2);
}

/// The same block mixed into different states gives different states.
proof fn lemma_mix_block_injective_in_state(h1: u32, h2: u32, k: u32)
    requires
        mix_block(h1, k) == mix_block(h2, k),
    ensures
        h1 == h2,
{
    let a = k.wrapping_mul(M);
    let c = (a ^ (a >> R)).wrapping_mul(M);
    lemma_xor_cancel(h1.wrapping_mul(M), h2.wrapping_mul(M), c);
    lemma_mul_injective(h1, h2);
}

/// The same tail mixed into different states gives different states.
proof fn lemma_mix_tail_injective_in_state(h1: u32, h2: u32, tail: Seq<u8>)
    requires
        mix_tail(h1, tail) == mix_tail(h2, tail),
    ensures
        h1 == h2,
{
    if tail.len() == 3 {
        let x1 = h1 ^ ((tail[2] as u32) << 16) ^ ((tail[1] as u32) << 8) ^ (tail[0] as u32);
        let x2 = h2 ^ ((tail[2] as u32) << 16) ^ ((tail[1] as u32) << 8) ^ (tail[0] as u32);
        lemma_mul_injective(x1, x2);
        let (p, q, r) = (((tail[2] as u32) << 16), ((tail[1] as u32) << 8), (tail[0] as u32));
        assert(h1 ^ p ^ q ^ r == h2 ^ p ^ q ^ r ==> h1 == h2) by (bit_vector);
    } else if tail.len() == 2 {
        let x1 = h1 ^ ((tail[1] as u32) << 8) ^ (tail[0] as u32);
        let x2 = h2 ^ ((tail[1] as u32) << 8) ^ (tail[0] as u32);
        lemma_mul_injective(x1, x2);
        let (q, r) = (((tail[1] as u32) << 8), (tail[0] as u32));
        assert(h1 ^ q ^ r == h2 ^ q ^ r ==> h1 == h2) by (bit_vector);
    } else if tail.len() == 1 {
        lemma_mul_injective(h1 ^ (tail[0] as u32), h2 ^ (tail[0] as u32));
        lemma_xor_cancel(h1, h2, tail[0] as u32);
    }
}

/// Tails of one to three bytes that differ give different states from the same state.
proof fn lemma_mix_tail_injective_in_tail(h: u32, t1: Seq<u8>, t2: Seq<u8>)
    requires
        t1.len() == t2.len(),
        1 <= t1.len() <= 3,
        t1 != t2,
    ensures
        mix_tail(h, t1) != mix_tail(h, t2),
{
    if mix_tail(h, t1) == mix_tail(h, t2) {
        if t1.len() == 3 {
            let (a0, a1, a2, b0, b1, b2) = (t1[0], t1[1], t1[2], t2[0], t2[1], t2[2]);
            lemma_mul_injective(
                h ^ ((a2 as u32) << 16) ^ ((a1 as u32) << 8) ^ (a0 as u32),
                h ^ ((b2 as u32) << 16) ^ ((b1 as u32) << 8) ^ (b0 as u32),
            );
            assert(h ^ ((a2 as u32) << 16) ^ ((a1 as u32) << 8) ^ (a0 as u32) == h ^ ((b2 as u32)
                << 16) ^ ((b1 as u32) << 8) ^ (b0 as u32) ==> a0 == b0 && a1 == b1 && a2 == b2)
                by (bit_vector);
            assert(t1 =~= t2);
        } else if t1.len() == 2 {
            let (a0, a1, b0, b1) = (t1[0], t1[1], t2[0], t2[1]);
            lemma_mul_injective(
                h ^ ((a1 as u32) << 8) ^ (a0 as u32),
                h ^ ((b1 as u32) << 8) ^ (b0 as u32),
            );
            assert(h ^ ((a1 as u32) << 8) ^ (a0 as u32) == h ^ ((b1 as u32) << 8) ^ (b0 as u32)
                ==> a0 == b0 && a1 == b1) by (bit_vector);
            assert(t1 =~= t2);
        } else {
            let (a0, b0) = (t1[0], t2[0]);
            lemma_mul_injective(h ^ (a0 as u32), h ^ (b0 as u32));
            assert(h ^ (a0 as u32) == h ^ (b0 as u32) ==> a0 == b0) by (bit_vector);
            assert(t1 =~= t2);
        }
    }
}

proof fn lemma_avalanche_injective(h1: u32, h2: u32)
    requires
        avalanche(h1) == avalanche(h2),
    ensures
        h1 == h2,
{
    let a1 = h1 ^ (h1 >> 13);
    let a2 = h2 ^ (h2 >> 13);
    let b1 = a1.wrapping_mul(M);
    let b2 = a2.wrapping_mul(M);
    lemma_xorshift_injective(b1, b2, 15);
    lemma_mul_injective(a1, a2);
    lemma_xorshift_injective(h1, h2, 13);
}

/// A block is determined by its four bytes, and each byte by the block.
proof fn lemma_block_bytes(d1: Seq<u8>, d2: Seq<u8>, b: int)
    requires
        0 <= 4 * b,
        4 * b + 3 < d1.len(),
        4 * b + 3 < d2.len(),
    ensures
        block(d1, b) == block(d2, b) <==> (d1[4 * b] == d2[4 * b] && d1[4 * b + 1] == d2[4 * b + 1]
            && d1[4 * b + 2] == d2[4 * b + 2] && d1[4 * b + 3] == d2[4 * b + 3]),
{
    let (a0, a1, a2, a3) = (d1[4 * b], d1[4 * b + 1], d1[4 * b + 2], d1[4 * b + 3]);
    let (c0, c1, c2, c3) = (d2[4 * b], d2[4 * b + 1], d2[4 * b + 2], d2[4 * b + 3]);
    assert((a0 as u32) | (a1 as u32) << 8 | (a2 as u32) << 16 | (a3 as u32) << 24 == (c0 as u32)
        | (c1 as u32) << 8 | (c2 as u32) << 16 | (c3 as u32) << 24 <==> (a0 == c0 && a1 == c1 && a2
        == c2 && a3 == c3)) by (bit_vector);
}

/// The state after `n` blocks depends only on those blocks.
proof fn lemma_mix_blocks_same(d1: Seq<u8>, d2: Seq<u8>, n: nat, h0: u32)
    requires
        forall|j: int| 0 <= j < n ==> block(d1, j) == block(d2, j),
    ensures
        mix_blocks(d1, n, h0) == mix_blocks(d2, n, h0),
    decreases n,
{
    if n > 0 {
        lemma_mix_blocks_same(d1, d2, (n - 1) as nat, h0);
        assert(block(d1, n - 1) == block(d2, n - 1));
    }
}

/// Once the states of two inputs differ, mixing the same further blocks keeps them apart.
proof fn lemma_mix_blocks_stay_apart(d1: Seq<u8>, d2: Seq<u8>, m: nat, n: nat, h0: u32)
    requires
        m <= n,
        mix_blocks(d1, m, h0) != mix_blocks(d2, m, h0),
        forall|j: int| m <= j < n ==> block(d1, j) == block(d2, j),
    ensures
        mix_blocks(d1, n, h0) != mix_blocks(d2, n, h0),
    decreases n,
{
    if n > m {
        lemma_mix_blocks_stay_apart(d1, d2, m, (n - 1) as nat, h0);
        assert(block(d1, n - 1) == block(d2, n - 1));
        if mix_blocks(d1, n, h0) == mix_blocks(d2, n, h0) {
            lemma_mix_block_injective_in_state(
                mix_blocks(d1, (n - 1) as nat, h0),
                mix_blocks(d2, (n - 1) as nat, h0),
                block(d1, n - 1),
            );
        }
    }
}

/// Murmur2 detects every single-byte change: two keys of the same length (below 2^32 bytes)
/// that differ in exactly one byte, wherever it is (in a whole block or in the tail after
/// the last whole block), hash differently. Every byte of the key, the tail bytes after the
/// last whole block included, takes part in the hash.
pub proof fn lemma_murmur2_detects_single_byte_change(d1: Seq<u8>, d2: Seq<u8>, i: int)
    requires
        d1.len() == d2.len(),
        d1.len() <= u32::MAX,
        0 <= i < d1.len(),
        d1[i] != d2[i],
        forall|j: int| 0 <= j < d1.len() && j != i ==> d1[j] == d2[j],
    ensures
        murmur2(d1) != murmur2(d2),
{
    let len = d1.len();
    assert(len32(d1) == len);
    assert(len32(d2) == len);
    let n = block_count(d1);
    assert(block_count(d2) == n);
    assert(4 * n <= len);
    let h0 = SEED ^ len32(d1);
    let t1 = d1.subrange((4 * n) as int, len as int);
    let t2 = d2.subrange((4 * n) as int, len as int);
    let s1;
    let s2;
    if i < 4 * n {
        let b = i / 4;
        assert forall|j: int| 0 <= j < n && j != b implies block(d1, j) == block(d2, j) by {
            lemma_block_bytes(d1, d2, j);
        }
        lemma_mix_blocks_same(d1, d2, b as nat, h0);
        lemma_block_bytes(d1, d2, b);
        assert(block(d1, b) != block(d2, b));
        if mix_blocks(d1, (b + 1) as nat, h0) == mix_blocks(d2, (b + 1) as nat, h0) {
            lemma_mix_block_injective_in_block(mix_blocks(d1, b as nat, h0), block(d1, b), block(d2, b));
        }
        lemma_mix_blocks_stay_apart(d1, d2, (b + 1) as nat, n, h0);
        assert(t1 =~= t2);
        s1 = mix_tail(mix_blocks(d1, n, h0), t1);
        s2 = mix_tail(mix_blocks(d2, n, h0), t2);
        if s1 == s2 {
            lemma_mix_tail_injective_in_state(mix_blocks(d1, n, h0), mix_blocks(d2, n, h0), t1);
        }
    } else {
        assert forall|j: int| 0 <= j < n implies block(d1, j) == block(d2, j) by {
            lemma_block_bytes(d1, d2, j);
        }
        lemma_mix_blocks_same(d1, d2, n, h0);
        assert(t1[i - 4 * n] != t2[i - 4 * n]);
        assert(t1.len() <= 3);
        lemma_mix_tail_injective_in_tail(mix_blocks(d1, n, h0), t1, t2);
        s1 = mix_tail(mix_blocks(d1, n, h0), t1);
        s2 = mix_tail(mix_blocks(d2, n, h0), t2);
    }
    if murmur2(d1) == murmur2(d2) {
        lemma_avalanche_injective(s1, s2);
    }
}

} // verus!
