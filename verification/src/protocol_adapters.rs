//! Protocol adapters of the DSH platform.
pub mod kafka_protocol;
