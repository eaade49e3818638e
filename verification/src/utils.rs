//! Hashing and topic helpers shared by the partitioners.
pub mod murmur2;
pub mod kafka;
pub mod decimal;
pub mod protobuf;
