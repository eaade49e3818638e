use dsh_sdk::protocol_adapters::kafka_protocol::dsh_envelope::identity::Publisher;
use dsh_sdk::protocol_adapters::kafka_protocol::dsh_envelope::Identity;
use dsh_sdk::stream_producer::stream_record;
use dsh_sdk::utils::decimal::{i32_to_string, usize_to_string};

#[test]
fn record_for_counter() {
    let identity = Some(Identity {
        tenant: "t".to_string(),
        publisher: Some(Publisher::Application("p".to_string())),
    });
    let r = stream_record(12, &identity, true, 1);
    assert_eq!(
        r.key,
        vec![0x0a, 12, 0x0a, 6, 0x0a, 1, b't', 0x2a, 1, b'p', 0x10, 1, 0x18, 1, 0x12, 2, b'1', b'2']
    );
    let mut payload = vec![0x0a, 14];
    payload.extend_from_slice(b"hello world 12");
    assert_eq!(r.payload, payload);
}

#[test]
fn record_without_identity() {
    let r = stream_record(0, &None, false, 0);
    assert_eq!(r.key, vec![0x0a, 0, 0x12, 1, b'0']);
    let mut payload = vec![0x0a, 13];
    payload.extend_from_slice(b"hello world 0");
    assert_eq!(r.payload, payload);
}

#[test]
fn decimal_text() {
    assert_eq!(i32_to_string(-42), "-42");
    assert_eq!(i32_to_string(i32::MIN), "-2147483648");
    assert_eq!(i32_to_string(0), "0");
    assert_eq!(usize_to_string(1234567), "1234567");
}
