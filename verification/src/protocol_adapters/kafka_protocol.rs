//! Kafka on DSH: the DSH partitioners and the helpers they are built from.
pub mod rdkafka;
pub mod config;
pub mod dsh_envelope;
pub mod utils;

use vstd::prelude::*;

verus! {

/// The DSH default partitioner: hashes the whole MQTT topic carried in the record key.
pub struct DefaultPartitioner;

/// The DSH topic-level partitioner: hashes only the first `partitioning_depth` levels of the
/// MQTT topic carried in the record key (all of it when the depth is zero).
pub struct TopicLevelPartitioner {
    pub partitioning_depth: usize,
}

} // verus!
