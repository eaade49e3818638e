//! Kafka helpers for DSH topics, and the DSH message envelopes.
//!
//! [`reduce_topic_prefix`] cuts an MQTT-style topic to a given number of levels, which the DSH
//! topic-level partitioner hashes in place of the whole topic.
pub use crate::protocol_adapters::kafka_protocol::dsh_envelope::{
    data_envelope, identity, DataEnvelope, Identity, KeyEnvelope, KeyHeader, QoS,
};
use vstd::prelude::*;

verus! {

/// The MQTT level separator, `/`.
pub const SLASH: u8 = 0x2f;

/// The bytes of `topic` that come before its `n`-th separator, or the whole topic when it has
/// fewer than `n` separators (`n` counts from one).
pub open spec fn before_nth_slash(topic: Seq<u8>, n: nat) -> Seq<u8>
    decreases topic.len(),
{
    if topic.len() == 0 {
        topic
    } else if topic[0] == SLASH && n <= 1 {
        Seq::empty()
    } else {
        seq![topic[0]] + before_nth_slash(
            topic.drop_first(),
            if topic[0] == SLASH {
                (n - 1) as nat
            } else {
                n
            },
        )
    }
}

/// The first `depth` levels of an MQTT topic; a `depth` of zero keeps the whole topic.
pub open spec fn topic_prefix(topic: Seq<u8>, depth: nat) -> Seq<u8> {
    if depth == 0 {
        topic
    } else {
        before_nth_slash(topic, depth)
    }
}

/// Reduces an MQTT topic's depth to `depth` levels.
///
/// The DSH topic-level partitioner uses the first `depth` levels of the MQTT topic to compute
/// the partition, where `depth` is the "topic level depth" setting of the DSH stream. The topic
/// is assumed to have no leading `/`. A `depth` of `0` returns the entire topic.
pub fn reduce_topic_prefix(topic: &[u8], depth: usize) -> (r: &[u8])
    ensures
        r@ == topic_prefix(topic@, depth as nat),
        depth == 0 ==> r@ == topic@,
{
    if depth == 0 {
        return topic;
    }
    let mut cur_depth: usize = 1;
    let mut i: usize = 0;
    assert(topic@.skip(0) == topic@);
    assert(topic@.take(0) + topic@ == topic@);
    while i < topic.len()
        invariant
            1 <= cur_depth <= depth,
            i <= topic@.len(),
            before_nth_slash(topic@, depth as nat) == topic@.take(i as int) + before_nth_slash(
                topic@.skip(i as int),
                (depth - cur_depth + 1) as nat,
            ),
        decreases topic@.len() - i,
    {
        let ghost rest = topic@.skip(i as int);
        assert(rest[0] == topic@[i as int]);
        assert(rest.drop_first() == topic@.skip(i + 1));
        assert(topic@.take(i as int).push(topic@[i as int]) == topic@.take(i + 1));
        if topic[i] == SLASH {
            if cur_depth == depth {
                assert(topic@.take(i as int) + Seq::<u8>::empty() == topic@.take(i as int));
                return &topic[0..i];
            }
            cur_depth += 1;
        }
        assert(topic@.take(i as int) + (seq![topic@[i as int]] + before_nth_slash(
            topic@.skip(i + 1),
            (depth - cur_depth + 1) as nat,
        )) == topic@.take(i + 1) + before_nth_slash(
            topic@.skip(i + 1),
            (depth - cur_depth + 1) as nat,
        ));
        i += 1;
    }
    assert(topic@.skip(i as int) == Seq::<u8>::empty());
    assert(topic@.take(i as int) == topic@);
    topic
}

/// `before_nth_slash(topic, n)` is a prefix of `topic`.
proof fn lemma_before_nth_slash_is_prefix(topic: Seq<u8>, n: nat)
    ensures
        before_nth_slash(topic, n).is_prefix_of(topic),
    decreases topic.len(),
{
    if topic.len() == 0 || (topic[0] == SLASH && n <= 1) {
    } else {
        let n2 = if topic[0] == SLASH {
            (n - 1) as nat
        } else {
            n
        };
        lemma_before_nth_slash_is_prefix(topic.drop_first(), n2);
        let r = before_nth_slash(topic.drop_first(), n2);
        assert(before_nth_slash(topic, n) == seq![topic[0]] + r);
        assert forall|i: int| 0 <= i < r.len() + 1 implies #[trigger] (seq![topic[0]] + r)[i]
            == topic[i] by {
            if i > 0 {
                assert(r[i - 1] == topic.drop_first()[i - 1]);
            }
        }
    }
}

/// Cutting a topic twice at the same depth cuts nothing more.
proof fn lemma_before_nth_slash_idempotent(topic: Seq<u8>, n: nat)
    ensures
        before_nth_slash(before_nth_slash(topic, n), n) == before_nth_slash(topic, n),
    decreases topic.len(),
{
    if topic.len() == 0 || (topic[0] == SLASH && n <= 1) {
    } else {
        let n2 = if topic[0] == SLASH {
            (n - 1) as nat
        } else {
            n
        };
        lemma_before_nth_slash_idempotent(topic.drop_first(), n2);
        let r = seq![topic[0]] + before_nth_slash(topic.drop_first(), n2);
        assert(r.drop_first() == before_nth_slash(topic.drop_first(), n2));
        assert(r[0] == topic[0]);
    }
}

/// Once a topic reaches past its `n`-th separator, what follows does not change the cut.
proof fn lemma_before_nth_slash_extend(topic: Seq<u8>, n: nat, suffix: Seq<u8>)
    requires
        before_nth_slash(topic, n).len() < topic.len(),
    ensures
        before_nth_slash(topic + suffix, n) == before_nth_slash(topic, n),
    decreases topic.len(),
{
    let t = topic + suffix;
    assert(t[0] == topic[0]);
    if topic[0] == SLASH && n <= 1 {
    } else {
        let n2 = if topic[0] == SLASH {
            (n - 1) as nat
        } else {
            n
        };
        assert(t.drop_first() == topic.drop_first() + suffix);
        lemma_before_nth_slash_extend(topic.drop_first(), n2, suffix);
    }
}

/// The reduced topic is a prefix of the topic.
pub proof fn lemma_topic_prefix_is_prefix(topic: Seq<u8>, depth: nat)
    ensures
        topic_prefix(topic, depth).is_prefix_of(topic),
{
    if depth > 0 {
        lemma_before_nth_slash_is_prefix(topic, depth);
    }
}

/// Reducing an already reduced topic to the same depth leaves it unchanged.
pub proof fn lemma_topic_prefix_idempotent(topic: Seq<u8>, depth: nat)
    ensures
        topic_prefix(topic_prefix(topic, depth), depth) == topic_prefix(topic, depth),
{
    if depth > 0 {
        lemma_before_nth_slash_idempotent(topic, depth);
    }
}

/// When a topic goes past its `depth`-th level separator (its reduction is shorter than it),
/// every extension of it reduces to the same first `depth` levels.
pub proof fn lemma_topic_prefix_of_subtopic(topic: Seq<u8>, depth: nat, suffix: Seq<u8>)
    requires
        topic_prefix(topic, depth).len() < topic.len(),
    ensures
        topic_prefix(topic + suffix, depth) == topic_prefix(topic, depth),
{
    lemma_before_nth_slash_extend(topic, depth, suffix);
}

} // verus!
