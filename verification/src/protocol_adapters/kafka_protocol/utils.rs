//! Kafka utilities for DSH: topic reduction and partition computation.
pub use crate::utils::kafka::reduce_topic_prefix;

use crate::utils::murmur2::{murmur2, murmur2_32, positive, to_positive};
use vstd::prelude::*;

verus! {

/// The partition, out of `partition_count`, that Kafka's Java client assigns to a record
/// whose key hashes to `hash`: the non-negative hash modulo the partition count.
///
/// For a non-negative dividend Rust's `%` and the Euclidean remainder agree, so this is the
/// value of `positive(hash) % partition_count` in Rust for any non-zero count.
pub open spec fn partition_of_hash(hash: u32, partition_count: i32) -> i32 {
    ((positive(hash) as int) % (partition_count as int)) as i32
}

/// The partition that Murmur2 partitioning assigns to `key` among `partition_count`.
pub open spec fn partition_of(key: Seq<u8>, partition_count: i32) -> i32 {
    partition_of_hash(murmur2(key), partition_count)
}

/// Remainder of the positive hash by the partition count, as Rust computes it.
pub fn hash_to_partition(hash: u32, partition_count: i32) -> (r: i32)
    requires
        partition_count != 0,
    ensures
        r == partition_of_hash(hash, partition_count),
        0 <= r,
        r < partition_count || r < -partition_count,
{
    let p = to_positive(hash);
    p % partition_count
}

/// Calculates the partition of a key, given the number of partitions.
///
/// Uses Murmur2 for hashing, as the official Kafka Java client does, then clears the sign bit
/// of the hash and takes it modulo the partition count (converted to `i32`, as Java would).
pub fn partition(key: &[u8], partition_count: usize) -> (r: i32)
    requires
        partition_count as i32 != 0,
    ensures
        r == partition_of(key@, partition_count as i32),
        0 <= r,
{
    hash_to_partition(murmur2_32(key), partition_count as i32)
}

} // verus!
