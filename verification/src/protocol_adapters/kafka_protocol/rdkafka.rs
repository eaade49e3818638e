//! The DSH partitioners as the rdkafka producer uses them, and the producer context that
//! hands them to rdkafka.
use super::utils::{hash_to_partition, partition_of, reduce_topic_prefix};
use super::{DefaultPartitioner, TopicLevelPartitioner};
use crate::utils::kafka::{
    lemma_topic_prefix_idempotent, lemma_topic_prefix_of_subtopic, topic_prefix,
};
use crate::utils::murmur2::murmur2_32;
use vstd::prelude::*;

verus! {

/// Partition of a record with optional key `key` under the default partitioner.
pub open spec fn default_partition(key: Option<Seq<u8>>, partition_cnt: i32) -> i32 {
    match key {
        Some(k) => partition_of(k, partition_cnt),
        None => 0,
    }
}

/// Partition of a record with optional key `key` under the topic-level partitioner of depth
/// `depth`.
pub open spec fn topic_level_partition(depth: nat, key: Option<Seq<u8>>, partition_cnt: i32) -> i32 {
    match key {
        Some(k) => partition_of(topic_prefix(k, depth), partition_cnt),
        None => 0,
    }
}

/// The bytes of an optional key.
pub open spec fn key_view(key: Option<&[u8]>) -> Option<Seq<u8>> {
    match key {
        Some(k) => Some(k@),
        None => None,
    }
}

/// Calls of a partitioner with this key and count do not divide by zero: a key is only
/// hashed when there is one, and then the count must be non-zero.
pub open spec fn partition_request_ok(key: Option<&[u8]>, partition_cnt: i32) -> bool {
    key is Some ==> partition_cnt != 0
}

impl DefaultPartitioner {
    /// Default partitioner for Kafka on DSH.
    ///
    /// Uses the full MQTT topic in `key` to compute the partition when a key is given,
    /// otherwise partition 0.
    pub fn partition(&self, _topic_name: &str, key: Option<&[u8]>, partition_cnt: i32) -> (r: i32)
        requires
            partition_request_ok(key, partition_cnt),
        ensures
            r == default_partition(key_view(key), partition_cnt),
    {
        match key {
            Some(k) => hash_to_partition(murmur2_32(k), partition_cnt),
            None => 0,
        }
    }
}

impl TopicLevelPartitioner {
    /// Topic-level partitioner for Kafka on DSH.
    ///
    /// Hashes the first `partitioning_depth` levels of the MQTT topic in `key` with Murmur2, as
    /// librdkafka does. Partition 0 when no key is given.
    pub fn partition(&self, _topic_name: &str, key: Option<&[u8]>, partition_cnt: i32) -> (r: i32)
        requires
            partition_request_ok(key, partition_cnt),
        ensures
            r == topic_level_partition(self.partitioning_depth as nat, key_view(key), partition_cnt),
    {
        match key {
            Some(k) => hash_to_partition(
                murmur2_32(reduce_topic_prefix(k, self.partitioning_depth)),
                partition_cnt,
            ),
            None => 0,
        }
    }
}

/// The partitioners that a DSH producer can be configured with.
pub enum RdkafkaPartitioner {
    Default(DefaultPartitioner),
    TopicLevel(TopicLevelPartitioner),
}

impl RdkafkaPartitioner {
    /// Partition of a record with optional key `key` under this partitioner.
    pub open spec fn spec_partition(&self, key: Option<Seq<u8>>, partition_cnt: i32) -> i32 {
        match self {
            RdkafkaPartitioner::Default(_) => default_partition(key, partition_cnt),
            RdkafkaPartitioner::TopicLevel(p) => topic_level_partition(
                p.partitioning_depth as nat,
                key,
                partition_cnt,
            ),
        }
    }

    /// Computes the partition of a record with the wrapped partitioner.
    pub fn partition(&self, topic_name: &str, key: Option<&[u8]>, partition_cnt: i32) -> (r: i32)
        requires
            partition_request_ok(key, partition_cnt),
        ensures
            r == self.spec_partition(key_view(key), partition_cnt),
            key is Some ==> 0 <= r && (r < partition_cnt || r < -partition_cnt),
            key is None ==> r == 0,
    {
        match self {
            RdkafkaPartitioner::Default(p) => p.partition(topic_name, key, partition_cnt),
            RdkafkaPartitioner::TopicLevel(p) => p.partition(topic_name, key, partition_cnt),
        }
    }
}

/// The producer context that provides the DSH partitioner to rdkafka.
pub struct MyContext {
    pub partitioner: RdkafkaPartitioner,
}

/// How a delivery report is logged.
#[derive(PartialEq, Eq, Structural, Debug, Clone, Copy)]
pub enum DeliveryLogLevel {
    /// A failed delivery: the error is logged as a warning.
    Warning,
    /// A successful delivery: "Record delivery success" is logged at debug level.
    Debug,
}

impl MyContext {
    /// The custom partitioner of this context, which is always present.
    pub fn get_custom_partitioner(&self) -> (r: Option<&RdkafkaPartitioner>)
        ensures
            r == Some(&self.partitioner),
    {
        Some(&self.partitioner)
    }

    /// The level at which a delivery report is logged: a warning for a failed delivery, debug
    /// for a successful one.
    pub fn delivery_log_level(&self, delivered: bool) -> (r: DeliveryLogLevel)
        ensures
            r == (if delivered {
                DeliveryLogLevel::Debug
            } else {
                DeliveryLogLevel::Warning
            }),
    {
        if delivered {
            DeliveryLogLevel::Debug
        } else {
            DeliveryLogLevel::Warning
        }
    }
}

/// The partition of a keyed record lies in `0..partition_cnt` (for a positive count), under
/// either partitioner.
pub proof fn lemma_partition_in_range(p: RdkafkaPartitioner, key: Seq<u8>, partition_cnt: i32)
    requires
        partition_cnt > 0,
    ensures
        0 <= p.spec_partition(Some(key), partition_cnt) < partition_cnt,
{
}

/// A record without a key always goes to partition 0.
pub proof fn lemma_unkeyed_partition_is_zero(p: RdkafkaPartitioner, partition_cnt: i32)
    ensures
        p.spec_partition(None, partition_cnt) == 0,
{
}

/// The topic-level partitioner of depth zero partitions every key as the default partitioner
/// does.
pub proof fn lemma_depth_zero_is_default(key: Option<Seq<u8>>, partition_cnt: i32)
    ensures
        topic_level_partition(0, key, partition_cnt) == default_partition(key, partition_cnt),
{
}

/// Under the topic-level partitioner, all sub-topics of a topic that goes past its
/// `depth`-th level separator land in the same partition as the topic itself.
pub proof fn lemma_subtopics_share_partition(
    depth: nat,
    topic: Seq<u8>,
    suffix: Seq<u8>,
    partition_cnt: i32,
)
    requires
        topic_prefix(topic, depth).len() < topic.len(),
    ensures
        topic_level_partition(depth, Some(topic + suffix), partition_cnt) == topic_level_partition(
            depth,
            Some(topic),
            partition_cnt,
        ),
{
    lemma_topic_prefix_of_subtopic(topic, depth, suffix);
}

/// Partitioning a key that is already reduced to `depth` levels gives the same partition as
/// partitioning the full key: the topic-level partitioner only looks at those levels.
pub proof fn lemma_reduced_key_same_partition(depth: nat, key: Seq<u8>, partition_cnt: i32)
    ensures
        topic_level_partition(depth, Some(topic_prefix(key, depth)), partition_cnt)
            == topic_level_partition(depth, Some(key), partition_cnt),
{
    lemma_topic_prefix_idempotent(key, depth);
}

/// The topic-level partitioner of depth `d` partitions a keyed record exactly as the default
/// partitioner partitions the same record with its key reduced to the first `d` levels: the
/// wrapper uses the depth it was configured with, and the default partitioner hashes the whole
/// key.
pub proof fn lemma_topic_level_is_default_on_reduced_key(
    p: TopicLevelPartitioner,
    key: Seq<u8>,
    partition_cnt: i32,
)
    ensures
        RdkafkaPartitioner::TopicLevel(p).spec_partition(Some(key), partition_cnt)
            == RdkafkaPartitioner::Default(DefaultPartitioner).spec_partition(
            Some(topic_prefix(key, p.partitioning_depth as nat)),
            partition_cnt,
        ),
        RdkafkaPartitioner::Default(DefaultPartitioner).spec_partition(Some(key), partition_cnt)
            == partition_of(key, partition_cnt),
{
}

/// Two topic-level partitioners give every key the partition of its reduction to their own
/// depth: keys whose first `d` levels agree share a partition under depth `d`.
pub proof fn lemma_topic_level_depends_on_configured_levels(
    p: TopicLevelPartitioner,
    key1: Seq<u8>,
    key2: Seq<u8>,
    partition_cnt: i32,
)
    requires
        topic_prefix(key1, p.partitioning_depth as nat) == topic_prefix(
            key2,
            p.partitioning_depth as nat,
        ),
    ensures
        RdkafkaPartitioner::TopicLevel(p).spec_partition(Some(key1), partition_cnt)
            == RdkafkaPartitioner::TopicLevel(p).spec_partition(Some(key2), partition_cnt),
{
}

} // verus!
