//! Partitioning and message-envelope logic for Kafka on the DSH platform.
//!
//! The library computes the Kafka partition of a record the way the DSH partitioners do
//! (Murmur2 over the MQTT topic in the record key, optionally cut to a topic-level depth),
//! builds the client settings that a DSH producer or consumer needs, and encodes the DSH
//! protobuf key and data envelopes.
pub mod utils;
pub mod protocol_adapters;
pub mod stream_producer;
