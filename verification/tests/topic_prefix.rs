use dsh_sdk::protocol_adapters::kafka_protocol::utils;
use dsh_sdk::utils::kafka;

#[test]
fn utils_prefix_depths() {
    assert_eq!(
        std::str::from_utf8(utils::reduce_topic_prefix("a/b/c".as_bytes(), 0)).unwrap(),
        "a/b/c"
    );
    assert_eq!(
        std::str::from_utf8(utils::reduce_topic_prefix("a/b/c".as_bytes(), 1)).unwrap(),
        "a"
    );
    assert_eq!(
        std::str::from_utf8(utils::reduce_topic_prefix("a/b/c".as_bytes(), 2)).unwrap(),
        "a/b"
    );
    assert_eq!(
        std::str::from_utf8(utils::reduce_topic_prefix("a/b/c".as_bytes(), 3)).unwrap(),
        "a/b/c"
    );
    assert_eq!(
        std::str::from_utf8(utils::reduce_topic_prefix("a/b/c".as_bytes(), 99)).unwrap(),
        "a/b/c"
    );
    assert_eq!(
        std::str::from_utf8(utils::reduce_topic_prefix("abc".as_bytes(), 1)).unwrap(),
        "abc"
    );
}

#[test]
fn kafka_prefix_depths() {
    assert_eq!(
        std::str::from_utf8(kafka::reduce_topic_prefix("a/b/c".as_bytes(), 0)).unwrap(),
        "a/b/c"
    );
    assert_eq!(
        std::str::from_utf8(kafka::reduce_topic_prefix("a/b/c".as_bytes(), 1)).unwrap(),
        "a"
    );
    assert_eq!(
        std::str::from_utf8(kafka::reduce_topic_prefix("a/b/c".as_bytes(), 2)).unwrap(),
        "a/b"
    );
    assert_eq!(
        std::str::from_utf8(kafka::reduce_topic_prefix("a/b/c".as_bytes(), 3)).unwrap(),
        "a/b/c"
    );
    assert_eq!(
        std::str::from_utf8(kafka::reduce_topic_prefix("a/b/c".as_bytes(), 99)).unwrap(),
        "a/b/c"
    );
    assert_eq!(
        std::str::from_utf8(kafka::reduce_topic_prefix("abc".as_bytes(), 1)).unwrap(),
        "abc"
    );
}

#[test]
fn prefix_edge_cases() {
    assert_eq!(kafka::reduce_topic_prefix(b"", 1), b"");
    assert_eq!(kafka::reduce_topic_prefix(b"", 0), b"");
    assert_eq!(kafka::reduce_topic_prefix(b"/a/b", 1), b"");
    assert_eq!(kafka::reduce_topic_prefix(b"/a/b", 2), b"/a");
    assert_eq!(kafka::reduce_topic_prefix(b"a//b", 2), b"a/");
    assert_eq!(kafka::reduce_topic_prefix(b"a/b/", 2), b"a/b");
    assert_eq!(kafka::reduce_topic_prefix(b"a/b/", 3), b"a/b/");
    assert_eq!(kafka::reduce_topic_prefix(b"a/b/c", usize::MAX), b"a/b/c");
}

#[test]
fn prefix_is_idempotent_and_shared_by_subtopics() {
    let once = kafka::reduce_topic_prefix(b"house/kitchen/temp", 2);
    assert_eq!(once, b"house/kitchen");
    assert_eq!(kafka::reduce_topic_prefix(once, 2), once);
    assert_eq!(kafka::reduce_topic_prefix(b"house/kitchen/humidity/max", 2), once);
}
