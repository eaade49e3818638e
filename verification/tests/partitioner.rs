use dsh_sdk::protocol_adapters::kafka_protocol::rdkafka::{
    DeliveryLogLevel, MyContext, RdkafkaPartitioner,
};
use dsh_sdk::protocol_adapters::kafka_protocol::{DefaultPartitioner, TopicLevelPartitioner};

#[test]
fn default_partitioner_hashes_whole_topic() {
    let p = DefaultPartitioner;
    assert_eq!(p.partition("t", Some(b"a/b/c"), 7), 4);
    assert_eq!(p.partition("t", Some(b"a/b/c"), 10), 0);
    assert_eq!(p.partition("t", None, 7), 0);
    assert_eq!(p.partition("t", None, 0), 0);
}

#[test]
fn topic_level_partitioner_hashes_first_levels() {
    let p = TopicLevelPartitioner { partitioning_depth: 1 };
    assert_eq!(p.partition("t", Some(b"a/b/c"), 7), 5);
    assert_eq!(p.partition("t", Some(b"a/x"), 7), 5);
    assert_eq!(p.partition("t", Some(b"a"), 7), 5);
    assert_eq!(p.partition("t", None, 7), 0);
    let whole = TopicLevelPartitioner { partitioning_depth: 0 };
    assert_eq!(whole.partition("t", Some(b"a/b/c"), 7), 4);
}

#[test]
fn rdkafka_partitioner_dispatches() {
    let d = RdkafkaPartitioner::Default(DefaultPartitioner);
    let t = RdkafkaPartitioner::TopicLevel(TopicLevelPartitioner { partitioning_depth: 1 });
    assert_eq!(d.partition("t", Some(b"a/b/c"), 7), 4);
    assert_eq!(t.partition("t", Some(b"a/b/c"), 7), 5);
    assert_eq!(d.partition("t", None, 3), 0);
    assert_eq!(t.partition("t", None, 3), 0);
}

#[test]
fn partitions_stay_in_range() {
    let d = RdkafkaPartitioner::Default(DefaultPartitioner);
    for n in 1..50i32 {
        for key in [&b"a/b/c"[..], b"21", b"foobar", b"", b"x/y"] {
            let p = d.partition("t", Some(key), n);
            assert!(0 <= p && p < n);
        }
    }
}

#[test]
fn context_hands_out_its_partitioner() {
    let ctx = MyContext {
        partitioner: RdkafkaPartitioner::TopicLevel(TopicLevelPartitioner { partitioning_depth: 2 }),
    };
    match ctx.get_custom_partitioner() {
        Some(RdkafkaPartitioner::TopicLevel(p)) => assert_eq!(p.partitioning_depth, 2),
        _ => panic!("expected the topic-level partitioner"),
    }
    assert_eq!(ctx.delivery_log_level(true), DeliveryLogLevel::Debug);
    assert_eq!(ctx.delivery_log_level(false), DeliveryLogLevel::Warning);
}
