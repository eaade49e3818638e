use dsh_sdk::protocol_adapters::kafka_protocol::dsh_envelope::data_envelope::Kind;
use dsh_sdk::protocol_adapters::kafka_protocol::dsh_envelope::identity::Publisher;
use dsh_sdk::protocol_adapters::kafka_protocol::dsh_envelope::{DataEnvelope, QoS};
use dsh_sdk::utils::kafka::{Identity, KeyEnvelope, KeyHeader};

#[test]
fn dsh_key_envelope() {
    let key_envelope = KeyEnvelope {
        header: Some(KeyHeader {
            identifier: Some(Identity {
                tenant: "test".to_string(),
                publisher: None,
            }),
            retained: true,
            qos: 1,
        }),
        key: "foo".to_string(),
    };
    let bytes = key_envelope.encode_to_vec();
    assert_eq!(
        bytes,
        vec![
            0x0a, 12, 0x0a, 6, 0x0a, 4, b't', b'e', b's', b't', 0x10, 1, 0x18, 1, 0x12, 3, b'f',
            b'o', b'o'
        ]
    );
}

#[test]
fn key_envelope_with_publisher() {
    let key_envelope = KeyEnvelope {
        header: Some(KeyHeader {
            identifier: Some(Identity {
                tenant: "test".to_string(),
                publisher: Some(Publisher::Application("dsh".to_string())),
            }),
            retained: true,
            qos: QoS::Reliable.as_i32(),
        }),
        key: "foo".to_string(),
    };
    assert_eq!(
        key_envelope.encode_to_vec(),
        vec![
            0x0a, 17, 0x0a, 11, 0x0a, 4, b't', b'e', b's', b't', 0x2a, 3, b'd', b's', b'h', 0x10,
            1, 0x18, 1, 0x12, 3, b'f', b'o', b'o'
        ]
    );
}

#[test]
fn defaults_are_left_out() {
    let empty = KeyEnvelope { header: None, key: String::new() };
    assert_eq!(empty.encode_to_vec(), Vec::<u8>::new());
    let header = KeyHeader { identifier: None, retained: false, qos: 0 };
    assert_eq!(header.encode_to_vec(), Vec::<u8>::new());
    let id = Identity { tenant: String::new(), publisher: Some(Publisher::User(String::new())) };
    // A oneof alternative is written even when empty.
    assert_eq!(id.encode_to_vec(), vec![0x1a, 0]);
    let with_empty_header = KeyEnvelope { header: Some(header), key: String::new() };
    assert_eq!(with_empty_header.encode_to_vec(), vec![0x0a, 0]);
}

#[test]
fn negative_qos_is_sign_extended() {
    let header = KeyHeader { identifier: None, retained: false, qos: -1 };
    assert_eq!(
        header.encode_to_vec(),
        vec![0x18, 0xff, 0xff, 0xff, 0xff, 0xff, 0xff, 0xff, 0xff, 0xff, 0x01]
    );
}

#[test]
fn publishers_use_their_own_fields() {
    let cases = [
        (Publisher::FreeForm("a".to_string()), 0x12u8),
        (Publisher::User("a".to_string()), 0x1a),
        (Publisher::Client("a".to_string()), 0x22),
        (Publisher::Application("a".to_string()), 0x2a),
    ];
    for (publisher, key) in cases {
        let id = Identity { tenant: "t".to_string(), publisher: Some(publisher) };
        assert_eq!(id.encode_to_vec(), vec![0x0a, 1, b't', key, 1, b'a']);
    }
}

#[test]
fn data_envelope_payload_and_tracing() {
    let envelope = DataEnvelope {
        tracing: vec![("k".to_string(), "v".to_string()), (String::new(), "x".to_string())],
        kind: Some(Kind::Payload(b"hello".to_vec())),
    };
    assert_eq!(
        envelope.encode_to_vec(),
        vec![
            0x0a, 5, b'h', b'e', b'l', b'l', b'o', 0x12, 6, 0x0a, 1, b'k', 0x12, 1, b'v', 0x12, 3,
            0x12, 1, b'x'
        ]
    );
    let nothing = DataEnvelope { tracing: Vec::new(), kind: None };
    assert_eq!(nothing.encode_to_vec(), Vec::<u8>::new());
}

#[test]
fn long_payload_uses_multi_byte_length() {
    let payload = vec![7u8; 300];
    let envelope = DataEnvelope { tracing: Vec::new(), kind: Some(Kind::Payload(payload.clone())) };
    let mut expected = vec![0x0a, 0xac, 0x02];
    expected.extend_from_slice(&payload);
    assert_eq!(envelope.encode_to_vec(), expected);
}

#[test]
fn qos_numbers() {
    assert_eq!(QoS::BestEffort.as_i32(), 0);
    assert_eq!(QoS::Reliable.as_i32(), 1);
    assert_eq!(QoS::from_i32(1), Some(QoS::Reliable));
    assert_eq!(QoS::from_i32(0), Some(QoS::BestEffort));
    assert_eq!(QoS::from_i32(2), None);
}

#[test]
fn identity_clone_is_equal_encoding() {
    let id = Identity {
        tenant: "tenant".to_string(),
        publisher: Some(Publisher::Client("c".to_string())),
    };
    assert_eq!(id.clone().encode_to_vec(), id.encode_to_vec());
}
