use dsh_sdk::protocol_adapters::kafka_protocol::config::{
    starts_with, Certificates, ClientSettings, KafkaConfig,
};

fn config() -> KafkaConfig {
    KafkaConfig {
        kafka_brokers: "broker-0:9091,broker-1:9091".to_string(),
        group_id: "tenant_group".to_string(),
        enable_auto_commit: false,
        auto_offset_reset: "earliest".to_string(),
        session_timeout: Some(30000),
        queued_buffering_max_messages_kbytes: None,
        batch_num_messages: Some(100),
        queue_buffering_max_messages: None,
        queue_buffering_max_kbytes: Some(-5),
        queue_buffering_max_ms: Some(0),
    }
}

fn certificates() -> Certificates {
    Certificates {
        private_key_pem: "KEY".to_string(),
        dsh_signed_certificate_pem: "CERT".to_string(),
        dsh_ca_certificate_pem: "CA".to_string(),
    }
}

fn pairs(s: &ClientSettings) -> Vec<(&str, &str)> {
    s.entries().iter().map(|(k, v)| (k.as_str(), v.as_str())).collect()
}

#[test]
fn producer_settings() {
    let mut s = ClientSettings::new();
    s.set_dsh_producer_config("client-1", &config(), None);
    assert_eq!(
        pairs(&s),
        vec![
            ("bootstrap.servers", "broker-0:9091,broker-1:9091"),
            ("client.id", "client-1"),
            ("batch.num.messages", "100"),
            ("queue.buffering.max.kbytes", "-5"),
            ("queue.buffering.max.ms", "0"),
            ("security.protocol", "plaintext"),
        ]
    );
}

#[test]
fn consumer_settings_with_certificates() {
    let mut s = ClientSettings::new();
    let certs = certificates();
    s.set_dsh_consumer_config("client-1", &config(), Some(&certs));
    assert_eq!(
        pairs(&s),
        vec![
            ("bootstrap.servers", "broker-0:9091,broker-1:9091"),
            ("group.id", "tenant_group"),
            ("client.id", "client-1"),
            ("enable.auto.commit", "false"),
            ("auto.offset.reset", "earliest"),
            ("session.timeout.ms", "30000"),
            ("security.protocol", "ssl"),
            ("ssl.key.pem", "KEY"),
            ("ssl.certificate.pem", "CERT"),
            ("ssl.ca.pem", "CA"),
        ]
    );
}

#[test]
fn consumer_auto_commit_true() {
    let mut c = config();
    c.enable_auto_commit = true;
    c.session_timeout = None;
    c.queued_buffering_max_messages_kbytes = Some(64);
    let mut s = ClientSettings::new();
    s.set_dsh_consumer_config("id", &c, None);
    let p = pairs(&s);
    assert!(p.contains(&("enable.auto.commit", "true")));
    assert!(p.contains(&("queued.max.messages.kbytes", "64")));
    assert!(!p.iter().any(|(k, _)| *k == "session.timeout.ms"));
}

#[test]
fn group_id_gets_tenant_prefix() {
    let mut s = ClientSettings::new();
    s.set_dsh_group_id("tenant", "group");
    assert_eq!(pairs(&s), vec![("group.id", "tenant_group")]);
    let mut s = ClientSettings::new();
    s.set_dsh_group_id("tenant", "tenant_group");
    assert_eq!(pairs(&s), vec![("group.id", "tenant_group")]);
    let mut s = ClientSettings::new();
    s.set_dsh_group_id("tenant", "tenantgroup");
    assert_eq!(pairs(&s), vec![("group.id", "tenantgroup")]);
    let mut s = ClientSettings::new();
    s.set_dsh_group_id("tenant", "ten");
    assert_eq!(pairs(&s), vec![("group.id", "tenant_ten")]);
}

#[test]
fn certificates_or_plaintext() {
    let mut s = ClientSettings::new();
    s.set_dsh_certificates(None);
    assert_eq!(pairs(&s), vec![("security.protocol", "plaintext")]);
    let certs = certificates();
    s.set_dsh_certificates(Some(&certs));
    assert_eq!(pairs(&s).len(), 5);
    assert_eq!(pairs(&s)[1], ("security.protocol", "ssl"));
}

#[test]
fn starts_with_compares_bytes() {
    assert!(starts_with("tenant_x", "tenant"));
    assert!(starts_with("abc", ""));
    assert!(!starts_with("ab", "abc"));
    assert!(!starts_with("abd", "abc"));
    assert!(starts_with("héllo", "hé"));
}
