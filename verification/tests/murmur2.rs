use dsh_sdk::protocol_adapters::kafka_protocol::utils::{hash_to_partition, partition};
use dsh_sdk::utils::murmur2::{murmur2_32, to_positive};

#[test]
fn murmur2_matches_kafka_reference_values() {
    // The hashes that Kafka's Java client gives, read as unsigned 32-bit values.
    assert_eq!(murmur2_32(b"21"), (-973932308i32) as u32);
    assert_eq!(murmur2_32(b"foobar"), (-790332482i32) as u32);
    assert_eq!(murmur2_32(b"a-little-bit-long-string"), (-985981536i32) as u32);
    assert_eq!(murmur2_32(b"a-little-bit-longer-string"), (-1486304829i32) as u32);
    assert_eq!(
        murmur2_32(b"lkjh234lh9fiuh90y23oiuhsafujhadof229phr9h19h89h8"),
        (-58897971i32) as u32
    );
    assert_eq!(murmur2_32(b"abc"), 479470107);
}

#[test]
fn murmur2_tail_lengths() {
    assert_eq!(murmur2_32(b""), 275646681);
    assert_eq!(murmur2_32(b"a"), 2731586172);
    assert_eq!(murmur2_32(b"a/b/c"), 3848004978);
}

#[test]
fn to_positive_clears_sign_bit() {
    assert_eq!(to_positive(0), 0);
    assert_eq!(to_positive(0x7fff_ffff), 0x7fff_ffff);
    assert_eq!(to_positive(0x8000_0000), 0);
    assert_eq!(to_positive(u32::MAX), 0x7fff_ffff);
    assert_eq!(to_positive(3848004978), 1700521330);
}

#[test]
fn partition_of_keys() {
    assert_eq!(partition(b"a/b/c", 10), 0);
    assert_eq!(partition(b"a/b/c", 7), 4);
    assert_eq!(partition(b"a", 7), 5);
    assert_eq!(partition(b"21", 12), 0);
    assert_eq!(partition(b"anything", 1), 0);
}

#[test]
fn partition_count_is_converted_to_i32() {
    // A count of 2^32 + 7 is 7 once converted to i32.
    if usize::BITS == 64 {
        let count = ((1u64 << 32) + 7) as usize;
        assert_eq!(partition(b"a/b/c", count), 4);
    }
}

#[test]
fn hash_to_partition_takes_remainder_of_positive_hash() {
    assert_eq!(hash_to_partition(3848004978, 7), 4);
    assert_eq!(hash_to_partition(3848004978, -7), 4);
    assert_eq!(hash_to_partition(u32::MAX, i32::MAX), 0);
    assert_eq!(hash_to_partition(u32::MAX, i32::MIN), i32::MAX);
}
