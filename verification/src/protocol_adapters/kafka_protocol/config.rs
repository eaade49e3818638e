//! The librdkafka client settings of a DSH producer or consumer.
//!
//! A [`ClientSettings`] records, in order, the `set` calls that configure an rdkafka
//! `ClientConfig`; applying them to a `ClientConfig` in the same order yields the same
//! configuration. Its view is the resulting map from setting name to value.
use crate::utils::decimal::{decimal, i32_to_string};
use vstd::prelude::*;
use vstd::string::StringSliceAdditionalSpecFns;

verus! {

/// The Kafka settings of the DSH stream environment that the client settings are made from.
pub struct KafkaConfig {
    pub kafka_brokers: String,
    pub group_id: String,
    pub enable_auto_commit: bool,
    pub auto_offset_reset: String,
    pub session_timeout: Option<i32>,
    pub queued_buffering_max_messages_kbytes: Option<i32>,
    pub batch_num_messages: Option<i32>,
    pub queue_buffering_max_messages: Option<i32>,
    pub queue_buffering_max_kbytes: Option<i32>,
    pub queue_buffering_max_ms: Option<i32>,
}

/// The PEM-encoded key and certificates that DSH issues to a client.
pub struct Certificates {
    pub private_key_pem: String,
    pub dsh_signed_certificate_pem: String,
    pub dsh_ca_certificate_pem: String,
}

/// A sequence of `set` calls on a librdkafka client configuration.
pub struct ClientSettings {
    entries: Vec<(String, String)>,
}

/// The configuration that a sequence of `set` calls leaves: each call overrides earlier ones
/// for the same name.
pub open spec fn settings_map(entries: Seq<(Seq<char>, Seq<char>)>) -> Map<Seq<char>, Seq<char>>
    decreases entries.len(),
{
    if entries.len() == 0 {
        Map::empty()
    } else {
        settings_map(entries.drop_last()).insert(entries.last().0, entries.last().1)
    }
}

/// `m` with `name` set to the decimal text of `value` when there is one.
pub open spec fn insert_opt(
    m: Map<Seq<char>, Seq<char>>,
    name: Seq<char>,
    value: Option<i32>,
) -> Map<Seq<char>, Seq<char>> {
    match value {
        Some(v) => m.insert(name, decimal(v as int)),
        None => m,
    }
}

/// The text of a boolean setting.
pub open spec fn bool_text(b: bool) -> Seq<char> {
    if b {
        "true"@
    } else {
        "false"@
    }
}

/// `m` with the transport security settings: SSL with the DSH key and certificates when they
/// are available, plaintext otherwise.
pub open spec fn with_certificates(
    m: Map<Seq<char>, Seq<char>>,
    certificates: Option<Certificates>,
) -> Map<Seq<char>, Seq<char>> {
    match certificates {
        Some(c) => m.insert("security.protocol"@, "ssl"@).insert(
            "ssl.key.pem"@,
            c.private_key_pem@,
        ).insert("ssl.certificate.pem"@, c.dsh_signed_certificate_pem@).insert(
            "ssl.ca.pem"@,
            c.dsh_ca_certificate_pem@,
        ),
        None => m.insert("security.protocol"@, "plaintext"@),
    }
}

/// The consumer settings that DSH requires, on top of `m`.
pub open spec fn with_consumer_config(
    m: Map<Seq<char>, Seq<char>>,
    client_id: Seq<char>,
    config: KafkaConfig,
    certificates: Option<Certificates>,
) -> Map<Seq<char>, Seq<char>> {
    let base = m.insert("bootstrap.servers"@, config.kafka_brokers@).insert(
        "group.id"@,
        config.group_id@,
    ).insert("client.id"@, client_id).insert(
        "enable.auto.commit"@,
        bool_text(config.enable_auto_commit),
    ).insert("auto.offset.reset"@, config.auto_offset_reset@);
    let tuned = insert_opt(
        insert_opt(base, "session.timeout.ms"@, config.session_timeout),
        "queued.max.messages.kbytes"@,
        config.queued_buffering_max_messages_kbytes,
    );
    with_certificates(tuned, certificates)
}

/// The producer settings that DSH requires, on top of `m`.
pub open spec fn with_producer_config(
    m: Map<Seq<char>, Seq<char>>,
    client_id: Seq<char>,
    config: KafkaConfig,
    certificates: Option<Certificates>,
) -> Map<Seq<char>, Seq<char>> {
    let base = m.insert("bootstrap.servers"@, config.kafka_brokers@).insert(
        "client.id"@,
        client_id,
    );
    let tuned = insert_opt(
        insert_opt(
            insert_opt(
                insert_opt(base, "batch.num.messages"@, config.batch_num_messages),
                "queue.buffering.max.messages"@,
                config.queue_buffering_max_messages,
            ),
            "queue.buffering.max.kbytes"@,
            config.queue_buffering_max_kbytes,
        ),
        "queue.buffering.max.ms"@,
        config.queue_buffering_max_ms,
    );
    with_certificates(tuned, certificates)
}

/// The consumer group id that DSH accepts for `group_id` in tenant `tenant`: the id itself
/// when it already starts with the tenant name, else the id prefixed with `<tenant>_`.
///
/// The prefix test is on the UTF-8 bytes of the two strings, as `str::starts_with` does.
pub open spec fn dsh_group_id(tenant: Seq<char>, group_id: Seq<char>) -> Seq<char> {
    if vstd::utf8::encode_utf8(tenant).is_prefix_of(vstd::utf8::encode_utf8(group_id)) {
        group_id
    } else {
        tenant + "_"@ + group_id
    }
}

impl View for ClientSettings {
    type V = Map<Seq<char>, Seq<char>>;

    open spec fn view(&self) -> Map<Seq<char>, Seq<char>> {
        settings_map(self.calls())
    }
}

impl ClientSettings {
    /// The `set` calls made so far, in order.
    pub closed spec fn calls(&self) -> Seq<(Seq<char>, Seq<char>)> {
        self.entries@.map_values(|e: (String, String)| (e.0@, e.1@))
    }

    /// Settings with nothing set.
    pub fn new() -> (s: ClientSettings)
        ensures
            s@ == Map::<Seq<char>, Seq<char>>::empty(),
            s.calls().len() == 0,
    {
        let s = ClientSettings { entries: Vec::new() };
        assert(s.calls() =~= Seq::empty());
        s
    }

    /// Sets `name` to `value`, overriding an earlier value of `name`.
    pub fn set(&mut self, name: &str, value: &str)
        ensures
            final(self).calls() == old(self).calls().push((name@, value@)),
            final(self)@ == old(self)@.insert(name@, value@),
    {
        let ghost before = self.calls();
        self.entries.push((name.to_owned(), value.to_owned()));
        assert(self.calls() =~= before.push((name@, value@)));
        assert(self.calls().drop_last() =~= before);
    }

    /// The `set` calls made so far, in order, as name/value pairs.
    pub fn entries(&self) -> (r: &Vec<(String, String)>)
        ensures
            r@.map_values(|e: (String, String)| (e.0@, e.1@)) == self.calls(),
    {
        &self.entries
    }

    fn set_opt(&mut self, name: &str, value: Option<i32>)
        ensures
            final(self)@ == insert_opt(old(self)@, name@, value),
    {
        if let Some(v) = value {
            let text = i32_to_string(v);
            self.set(name, text.as_str());
        }
    }

    /// Sets the DSH consumer settings: brokers, group and client id, offset handling, the
    /// optional tuning values of the stream, and the transport security.
    pub fn set_dsh_consumer_config(
        &mut self,
        client_id: &str,
        config: &KafkaConfig,
        certificates: Option<&Certificates>,
    )
        ensures
            final(self)@ == with_consumer_config(
                old(self)@,
                client_id@,
                *config,
                match certificates {
                    Some(c) => Some(*c),
                    None => None,
                },
            ),
    {
        self.set("bootstrap.servers", config.kafka_brokers.as_str());
        self.set("group.id", config.group_id.as_str());
        self.set("client.id", client_id);
        self.set("enable.auto.commit", if config.enable_auto_commit { "true" } else { "false" });
        self.set("auto.offset.reset", config.auto_offset_reset.as_str());
        self.set_opt("session.timeout.ms", config.session_timeout);
        self.set_opt("queued.max.messages.kbytes", config.queued_buffering_max_messages_kbytes);
        self.set_dsh_certificates(certificates);
    }

    /// Sets the DSH producer settings: brokers and client id, the optional batching and
    /// queueing values of the stream, and the transport security.
    pub fn set_dsh_producer_config(
        &mut self,
        client_id: &str,
        config: &KafkaConfig,
        certificates: Option<&Certificates>,
    )
        ensures
            final(self)@ == with_producer_config(
                old(self)@,
                client_id@,
                *config,
                match certificates {
                    Some(c) => Some(*c),
                    None => None,
                },
            ),
    {
        self.set("bootstrap.servers", config.kafka_brokers.as_str());
        self.set("client.id", client_id);
        self.set_opt("batch.num.messages", config.batch_num_messages);
        self.set_opt("queue.buffering.max.messages", config.queue_buffering_max_messages);
        self.set_opt("queue.buffering.max.kbytes", config.queue_buffering_max_kbytes);
        self.set_opt("queue.buffering.max.ms", config.queue_buffering_max_ms);
        self.set_dsh_certificates(certificates);
    }

    /// Sets the consumer group id, prefixed with `<tenant>_` unless it already starts with
    /// the tenant name.
    pub fn set_dsh_group_id(&mut self, tenant: &str, group_id: &str)
        ensures
            final(self)@ == old(self)@.insert("group.id"@, dsh_group_id(tenant@, group_id@)),
    {
        if starts_with(group_id, tenant) {
            self.set("group.id", group_id);
        } else {
            let mut id = tenant.to_owned();
            id.append("_");
            id.append(group_id);
            self.set("group.id", id.as_str());
        }
    }

    /// Sets the transport security: SSL with the DSH key and certificates when they are
    /// available, plaintext otherwise.
    pub fn set_dsh_certificates(&mut self, certificates: Option<&Certificates>)
        ensures
            final(self)@ == with_certificates(
                old(self)@,
                match certificates {
                    Some(c) => Some(*c),
                    None => None,
                },
            ),
    {
        match certificates {
            Some(c) => {
                self.set("security.protocol", "ssl");
                self.set("ssl.key.pem", c.private_key_pem.as_str());
                self.set("ssl.certificate.pem", c.dsh_signed_certificate_pem.as_str());
                self.set("ssl.ca.pem", c.dsh_ca_certificate_pem.as_str());
            },
            None => {
                self.set("security.protocol", "plaintext");
            },
        }
    }
}

/// Whether the UTF-8 bytes of `s` start with those of `prefix`, as `str::starts_with` tests.
pub fn starts_with(s: &str, prefix: &str) -> (r: bool)
    ensures
        r == prefix.spec_bytes().is_prefix_of(s.spec_bytes()),
{
    let sb = s.as_bytes();
    let pb = prefix.as_bytes();
    if pb.len() > sb.len() {
        return false;
    }
    let mut i: usize = 0;
    while i < pb.len()
        invariant
            pb@ == prefix.spec_bytes(),
            sb@ == s.spec_bytes(),
            pb@.len() <= sb@.len(),
            i <= pb@.len(),
            forall|j: int| 0 <= j < i ==> pb@[j] == sb@[j],
        decreases pb@.len() - i,
    {
        if pb[i] != sb[i] {
            return false;
        }
        i += 1;
    }
    assert(pb@ =~= sb@.subrange(0, pb@.len() as int));
    true
}

/// UTF-8 encoding distributes over concatenation.
proof fn lemma_encode_utf8_concat(a: Seq<char>, b: Seq<char>)
    ensures
        vstd::utf8::encode_utf8(a + b) == vstd::utf8::encode_utf8(a) + vstd::utf8::encode_utf8(b),
    decreases a.len(),
{
    if a.len() == 0 {
        assert(a + b == b);
    } else {
        lemma_encode_utf8_concat(a.drop_first(), b);
        assert((a + b).drop_first() == a.drop_first() + b);
        assert((a + b)[0] == a[0]);
    }
}

/// The group id that DSH is given always starts with the tenant name (as UTF-8 bytes).
pub proof fn lemma_group_id_has_tenant_prefix(tenant: Seq<char>, group_id: Seq<char>)
    ensures
        vstd::utf8::encode_utf8(tenant).is_prefix_of(vstd::utf8::encode_utf8(dsh_group_id(tenant, group_id))),
{
    if !vstd::utf8::encode_utf8(tenant).is_prefix_of(vstd::utf8::encode_utf8(group_id)) {
        lemma_encode_utf8_concat(tenant, "_"@ + group_id);
        assert(tenant + "_"@ + group_id == tenant + ("_"@ + group_id));
        let e = vstd::utf8::encode_utf8(tenant);
        assert(e =~= (e + vstd::utf8::encode_utf8("_"@ + group_id)).subrange(0, e.len() as int));
    }
}

/// Prefixing a group id that is already prefixed changes nothing.
pub proof fn lemma_group_id_idempotent(tenant: Seq<char>, group_id: Seq<char>)
    ensures
        dsh_group_id(tenant, dsh_group_id(tenant, group_id)) == dsh_group_id(tenant, group_id),
{
    lemma_group_id_has_tenant_prefix(tenant, group_id);
}

/// The setting names that DSH clients use are all different.
proof fn lemma_setting_names_distinct()
    ensures
        "security.protocol"@ != "ssl.key.pem"@,
        "security.protocol"@ != "ssl.certificate.pem"@,
        "security.protocol"@ != "ssl.ca.pem"@,
        "ssl.key.pem"@ != "ssl.certificate.pem"@,
        "ssl.key.pem"@ != "ssl.ca.pem"@,
        "ssl.certificate.pem"@ != "ssl.ca.pem"@,
{
    reveal_strlit("security.protocol");
    reveal_strlit("ssl.key.pem");
    reveal_strlit("ssl.certificate.pem");
    reveal_strlit("ssl.ca.pem");
    assert("security.protocol"@.len() == 17);
    assert("ssl.key.pem"@.len() == 11);
    assert("ssl.certificate.pem"@.len() == 19);
    assert("ssl.ca.pem"@.len() == 10);
}

/// The transport security follows the certificates passed in: with certificates the client
/// uses SSL with exactly the DSH key and certificates given, without them plaintext.
pub proof fn lemma_certificates_select_security(
    m: Map<Seq<char>, Seq<char>>,
    certificates: Option<Certificates>,
)
    ensures
        ({
            let r = with_certificates(m, certificates);
            match certificates {
                Some(c) => {
                    &&& r["security.protocol"@] == "ssl"@
                    &&& r["ssl.key.pem"@] == c.private_key_pem@
                    &&& r["ssl.certificate.pem"@] == c.dsh_signed_certificate_pem@
                    &&& r["ssl.ca.pem"@] == c.dsh_ca_certificate_pem@
                },
                None => {
                    &&& r["security.protocol"@] == "plaintext"@
                    &&& r.remove("security.protocol"@) == m.remove("security.protocol"@)
                },
            }
        }),
{
    lemma_setting_names_distinct();
    if certificates is None {
        assert(with_certificates(m, certificates).remove("security.protocol"@) =~= m.remove(
            "security.protocol"@,
        ));
    }
}

/// The producer settings connect to the configured brokers as the given client, and their
/// transport security follows the certificates passed in: SSL with exactly those key and
/// certificates when there are some, plaintext otherwise.
pub proof fn lemma_producer_settings(
    m: Map<Seq<char>, Seq<char>>,
    client_id: Seq<char>,
    config: KafkaConfig,
    certificates: Option<Certificates>,
)
    ensures
        ({
            let r = with_producer_config(m, client_id, config, certificates);
            &&& r.dom().contains("security.protocol"@)
            &&& (certificates matches Some(c) ==> {
                &&& r["security.protocol"@] == "ssl"@
                &&& r["ssl.key.pem"@] == c.private_key_pem@
                &&& r["ssl.certificate.pem"@] == c.dsh_signed_certificate_pem@
                &&& r["ssl.ca.pem"@] == c.dsh_ca_certificate_pem@
            })
            &&& (certificates is None ==> r["security.protocol"@] == "plaintext"@)
            &&& r["bootstrap.servers"@] == config.kafka_brokers@
            &&& r["client.id"@] == client_id
            &&& (config.batch_num_messages matches Some(v) ==> r["batch.num.messages"@] == decimal(
                v as int,
            ))
            &&& (config.queue_buffering_max_messages matches Some(v)
                ==> r["queue.buffering.max.messages"@] == decimal(v as int))
            &&& (config.queue_buffering_max_kbytes matches Some(v)
                ==> r["queue.buffering.max.kbytes"@] == decimal(v as int))
            &&& (config.queue_buffering_max_ms matches Some(v) ==> r["queue.buffering.max.ms"@]
                == decimal(v as int))
        }),
{
    lemma_setting_names_distinct();
    reveal_strlit("security.protocol");
    assert("security.protocol"@.len() == 17);
    reveal_strlit("ssl.key.pem");
    assert("ssl.key.pem"@.len() == 11);
    reveal_strlit("ssl.certificate.pem");
    assert("ssl.certificate.pem"@.len() == 19);
    reveal_strlit("ssl.ca.pem");
    assert("ssl.ca.pem"@.len() == 10);
    reveal_strlit("bootstrap.servers");
    assert("bootstrap.servers"@.len() == 17);
    reveal_strlit("client.id");
    assert("client.id"@.len() == 9);
    reveal_strlit("batch.num.messages");
    assert("batch.num.messages"@.len() == 18);
    reveal_strlit("queue.buffering.max.messages");
    assert("queue.buffering.max.messages"@.len() == 28);
    reveal_strlit("queue.buffering.max.kbytes");
    assert("queue.buffering.max.kbytes"@.len() == 26);
    reveal_strlit("queue.buffering.max.ms");
    assert("queue.buffering.max.ms"@.len() == 22);
    assert("bootstrap.servers"@[0] != "security.protocol"@[0]);
    assert("queue.buffering.max.messages"@[20] != "queue.buffering.max.kbytes"@[20]);
    assert("queue.buffering.max.messages"@.len() != "queue.buffering.max.ms"@.len());
}

/// The consumer settings connect to the configured brokers as the given client in the
/// configured group, and their transport security follows the certificates passed in.
pub proof fn lemma_consumer_settings(
    m: Map<Seq<char>, Seq<char>>,
    client_id: Seq<char>,
    config: KafkaConfig,
    certificates: Option<Certificates>,
)
    ensures
        ({
            let r = with_consumer_config(m, client_id, config, certificates);
            &&& r.dom().contains("security.protocol"@)
            &&& (certificates matches Some(c) ==> {
                &&& r["security.protocol"@] == "ssl"@
                &&& r["ssl.key.pem"@] == c.private_key_pem@
                &&& r["ssl.certificate.pem"@] == c.dsh_signed_certificate_pem@
                &&& r["ssl.ca.pem"@] == c.dsh_ca_certificate_pem@
            })
            &&& (certificates is None ==> r["security.protocol"@] == "plaintext"@)
            &&& r["bootstrap.servers"@] == config.kafka_brokers@
            &&& r["group.id"@] == config.group_id@
            &&& r["client.id"@] == client_id
            &&& r["enable.auto.commit"@] == bool_text(config.enable_auto_commit)
            &&& r["auto.offset.reset"@] == config.auto_offset_reset@
            &&& (config.session_timeout matches Some(v) ==> r["session.timeout.ms"@] == decimal(
                v as int,
            ))
            &&& (config.queued_buffering_max_messages_kbytes matches Some(v)
                ==> r["queued.max.messages.kbytes"@] == decimal(v as int))
        }),
{
    lemma_setting_names_distinct();
    reveal_strlit("security.protocol");
    assert("security.protocol"@.len() == 17);
    reveal_strlit("ssl.key.pem");
    assert("ssl.key.pem"@.len() == 11);
    reveal_strlit("ssl.certificate.pem");
    assert("ssl.certificate.pem"@.len() == 19);
    reveal_strlit("ssl.ca.pem");
    assert("ssl.ca.pem"@.len() == 10);
    reveal_strlit("bootstrap.servers");
    assert("bootstrap.servers"@.len() == 17);
    reveal_strlit("group.id");
    assert("group.id"@.len() == 8);
    reveal_strlit("client.id");
    assert("client.id"@.len() == 9);
    reveal_strlit("enable.auto.commit");
    assert("enable.auto.commit"@.len() == 18);
    reveal_strlit("auto.offset.reset");
    assert("auto.offset.reset"@.len() == 17);
    reveal_strlit("session.timeout.ms");
    assert("session.timeout.ms"@.len() == 18);
    reveal_strlit("queued.max.messages.kbytes");
    assert("queued.max.messages.kbytes"@.len() == 26);
    assert("bootstrap.servers"@[0] != "security.protocol"@[0]);
    assert("auto.offset.reset"@[0] != "security.protocol"@[0]);
    assert("auto.offset.reset"@[0] != "bootstrap.servers"@[0]);
    assert("enable.auto.commit"@[0] != "session.timeout.ms"@[0]);
}

} // verus!
