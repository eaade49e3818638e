//! The records that the DSH stream producer publishes.
//!
//! The producer publishes, once a second, a record whose key envelope carries the message
//! counter as MQTT topic and whose data envelope carries the text `hello world <counter>`.
//! This module builds those records; sending them is left to the Kafka client.
use crate::protocol_adapters::kafka_protocol::dsh_envelope::data_envelope::Kind;
use crate::protocol_adapters::kafka_protocol::dsh_envelope::{
    key_header_bytes, singular_string, DataEnvelope, Identity, KeyEnvelope, KeyHeader,
};
use crate::utils::decimal::{decimal, usize_to_string};
use crate::utils::protobuf::length_delimited;
use vstd::prelude::*;

verus! {

/// The encoded key and value of a Kafka record.
pub struct StreamRecord {
    pub key: Vec<u8>,
    pub payload: Vec<u8>,
}

/// The text that the producer publishes as message number `counter`.
pub open spec fn payload_text(counter: nat) -> Seq<char> {
    "hello world "@ + decimal(counter as int)
}

/// The key envelope of message number `counter`: the header with the producer's identity,
/// retained flag and QoS, and the counter as MQTT topic.
pub open spec fn record_key_bytes(
    counter: nat,
    identifier: Option<Identity>,
    retained: bool,
    qos: i32,
) -> Seq<u8> {
    length_delimited(1, key_header_bytes(KeyHeader { identifier, retained, qos })) + singular_string(
        2,
        decimal(counter as int),
    )
}

/// The data envelope of message number `counter`: its text as payload, no tracing.
pub open spec fn record_payload_bytes(counter: nat) -> Seq<u8> {
    length_delimited(1, vstd::utf8::encode_utf8(payload_text(counter)))
}

/// Builds the key and value of message number `counter` of the stream producer.
pub fn stream_record(counter: usize, identifier: &Option<Identity>, retained: bool, qos: i32) -> (r:
    StreamRecord)
    ensures
        r.key@ == record_key_bytes(counter as nat, *identifier, retained, qos),
        r.payload@ == record_payload_bytes(counter as nat),
{
    let identifier = match identifier {
        Some(id) => Some(id.clone()),
        None => None,
    };
    let key_envelope = KeyEnvelope {
        header: Some(KeyHeader { identifier, retained, qos }),
        key: usize_to_string(counter),
    };
    let mut text = "hello world ".to_owned();
    let digits = usize_to_string(counter);
    text.append(digits.as_str());
    let data_envelope = DataEnvelope {
        tracing: Vec::new(),
        kind: Some(Kind::Payload(vstd::slice::slice_to_vec(text.as_str().as_bytes()))),
    };
    let key = key_envelope.encode_to_vec();
    let payload = data_envelope.encode_to_vec();
    assert(data_envelope.tracing@ =~= Seq::<(String, String)>::empty());
    StreamRecord { key, payload }
}

} // verus!
