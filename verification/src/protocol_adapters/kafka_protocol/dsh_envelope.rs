//! The DSH message envelopes and their protobuf encoding.
//!
//! DSH wraps both the key and the value of every Kafka record on a public stream in a
//! protobuf envelope:
//!
//! | Type | Role |
//! |------|------|
//! | [`KeyEnvelope`] | Wraps the Kafka record key: header (1), MQTT topic (2) |
//! | [`KeyHeader`] | Identity (1), retained flag (2), QoS (3) |
//! | [`Identity`] | Tenant (1), publisher (one of fields 2 to 5) |
//! | [`DataEnvelope`] | Wraps the record value: payload (1), tracing map (2) |
//! | [`QoS`] | Quality-of-service level of a message |
//!
//! Encoding writes the fields in tag order and, as proto3 does, leaves out a singular field
//! that holds its default value (empty string, `false`, zero, absent message); a oneof
//! alternative that is set is always written.
pub mod data_envelope;
pub mod identity;

use crate::utils::protobuf::{
    field_key, int32_bits, length_delimited, varint, put_bool, put_bytes, put_int32, put_nested, put_string,
    string_field, varint_field,
};
use data_envelope::Kind;
use identity::Publisher;
use vstd::prelude::*;

verus! {

/// Quality-of-service level of a message.
#[derive(PartialEq, Eq, Structural, Debug, Clone, Copy)]
pub enum QoS {
    /// Best effort delivery: 0, the default.
    BestEffort,
    /// Reliable delivery: 1.
    Reliable,
}

impl QoS {
    /// The protobuf number of this level.
    pub open spec fn value(self) -> i32 {
        match self {
            QoS::BestEffort => 0,
            QoS::Reliable => 1,
        }
    }

    /// The protobuf number of this level, as stored in [`KeyHeader::qos`].
    pub fn as_i32(self) -> (r: i32)
        ensures
            r == self.value(),
    {
        match self {
            QoS::BestEffort => 0,
            QoS::Reliable => 1,
        }
    }

    /// The level with protobuf number `v`, if there is one.
    pub fn from_i32(v: i32) -> (r: Option<QoS>)
        ensures
            r matches Some(q) ==> q.value() == v,
            r is None <==> (v != 0 && v != 1),
    {
        if v == 0 {
            Some(QoS::BestEffort)
        } else if v == 1 {
            Some(QoS::Reliable)
        } else {
            None
        }
    }
}

/// Identifies the tenant and publisher a message originates from.
pub struct Identity {
    pub tenant: String,
    pub publisher: Option<Publisher>,
}

/// Metadata of a key envelope.
pub struct KeyHeader {
    pub identifier: Option<Identity>,
    pub retained: bool,
    /// The [`QoS`] level, by its protobuf number.
    pub qos: i32,
}

/// The envelope around a Kafka record key: header and MQTT topic.
pub struct KeyEnvelope {
    pub header: Option<KeyHeader>,
    pub key: String,
}

/// The envelope around a Kafka record value.
pub struct DataEnvelope {
    /// Tracing context, as name/value pairs in the order they are written.
    pub tracing: Vec<(String, String)>,
    pub kind: Option<Kind>,
}

/// A string field that proto3 leaves out when it is empty.
pub open spec fn singular_string(tag: nat, s: Seq<char>) -> Seq<u8> {
    if s.len() == 0 {
        Seq::empty()
    } else {
        string_field(tag, s)
    }
}

/// The encoding of an identity.
pub open spec fn identity_bytes(id: Identity) -> Seq<u8> {
    singular_string(1, id.tenant@) + match id.publisher {
        Some(Publisher::FreeForm(s)) => string_field(2, s@),
        Some(Publisher::User(s)) => string_field(3, s@),
        Some(Publisher::Client(s)) => string_field(4, s@),
        Some(Publisher::Application(s)) => string_field(5, s@),
        None => Seq::empty(),
    }
}

/// The encoding of a key header.
pub open spec fn key_header_bytes(h: KeyHeader) -> Seq<u8> {
    (match h.identifier {
        Some(id) => length_delimited(1, identity_bytes(id)),
        None => Seq::empty(),
    }) + (if h.retained {
        varint_field(2, 1)
    } else {
        Seq::empty()
    }) + (if h.qos != 0 {
        varint_field(3, int32_bits(h.qos))
    } else {
        Seq::empty()
    })
}

/// The encoding of a key envelope.
pub open spec fn key_envelope_bytes(e: KeyEnvelope) -> Seq<u8> {
    (match e.header {
        Some(h) => length_delimited(1, key_header_bytes(h)),
        None => Seq::empty(),
    }) + singular_string(2, e.key@)
}

/// The encoding of one entry of the tracing map: a nested message with the name (1) and the
/// value (2), each left out when empty.
pub open spec fn tracing_entry_bytes(name: Seq<char>, value: Seq<char>) -> Seq<u8> {
    length_delimited(2, singular_string(1, name) + singular_string(2, value))
}

/// The encoding of the tracing map, entry by entry.
pub open spec fn tracing_bytes(entries: Seq<(String, String)>) -> Seq<u8>
    decreases entries.len(),
{
    if entries.len() == 0 {
        Seq::empty()
    } else {
        tracing_bytes(entries.drop_last()) + tracing_entry_bytes(
            entries.last().0@,
            entries.last().1@,
        )
    }
}

/// The encoding of a data envelope.
pub open spec fn data_envelope_bytes(d: DataEnvelope) -> Seq<u8> {
    (match d.kind {
        Some(Kind::Payload(p)) => length_delimited(1, p@),
        None => Seq::empty(),
    }) + tracing_bytes(d.tracing@)
}

fn put_singular_string(tag: u32, s: &String, buf: &mut Vec<u8>)
    requires
        1 <= tag <= 5,
    ensures
        final(buf)@ == old(buf)@ + singular_string(tag as nat, s@),
{
    if !s.as_str().is_empty() {
        put_string(tag, s, buf);
    } else {
        assert(old(buf)@ + Seq::<u8>::empty() == old(buf)@);
    }
}

impl Clone for Identity {
    fn clone(&self) -> (r: Self)
        ensures
            r == *self,
    {
        let publisher = match &self.publisher {
            Some(p) => Some(p.clone()),
            None => None,
        };
        Identity { tenant: self.tenant.clone(), publisher }
    }
}

impl Identity {
    /// Appends the encoding of this identity to `buf`.
    pub fn encode_raw(&self, buf: &mut Vec<u8>)
        ensures
            final(buf)@ == old(buf)@ + identity_bytes(*self),
    {
        put_singular_string(1, &self.tenant, buf);
        let ghost mid = buf@;
        match &self.publisher {
            Some(Publisher::FreeForm(s)) => put_string(2, s, buf),
            Some(Publisher::User(s)) => put_string(3, s, buf),
            Some(Publisher::Client(s)) => put_string(4, s, buf),
            Some(Publisher::Application(s)) => put_string(5, s, buf),
            None => {
                assert(mid + Seq::<u8>::empty() == mid);
            },
        }
    }

    /// The encoding of this identity.
    pub fn encode_to_vec(&self) -> (r: Vec<u8>)
        ensures
            r@ == identity_bytes(*self),
    {
        let mut buf: Vec<u8> = Vec::new();
        self.encode_raw(&mut buf);
        buf
    }
}

impl KeyHeader {
    /// Appends the encoding of this header to `buf`.
    pub fn encode_raw(&self, buf: &mut Vec<u8>)
        ensures
            final(buf)@ == old(buf)@ + key_header_bytes(*self),
    {
        let ghost start = buf@;
        if let Some(id) = &self.identifier {
            let mut inner = id.encode_to_vec();
            put_nested(1, &mut inner, buf);
        } else {
            assert(start + Seq::<u8>::empty() == start);
        }
        let ghost after_identity = buf@;
        if self.retained {
            put_bool(2, true, buf);
        } else {
            assert(after_identity + Seq::<u8>::empty() == after_identity);
        }
        let ghost after_retained = buf@;
        if self.qos != 0 {
            put_int32(3, self.qos, buf);
        } else {
            assert(after_retained + Seq::<u8>::empty() == after_retained);
        }
    }

    /// The encoding of this header.
    pub fn encode_to_vec(&self) -> (r: Vec<u8>)
        ensures
            r@ == key_header_bytes(*self),
    {
        let mut buf: Vec<u8> = Vec::new();
        self.encode_raw(&mut buf);
        buf
    }
}

impl KeyEnvelope {
    /// Appends the encoding of this envelope to `buf`.
    pub fn encode_raw(&self, buf: &mut Vec<u8>)
        ensures
            final(buf)@ == old(buf)@ + key_envelope_bytes(*self),
    {
        let ghost start = buf@;
        if let Some(h) = &self.header {
            let mut inner = h.encode_to_vec();
            put_nested(1, &mut inner, buf);
        } else {
            assert(start + Seq::<u8>::empty() == start);
        }
        put_singular_string(2, &self.key, buf);
    }

    /// The protobuf encoding of this envelope, the bytes of a DSH record key.
    pub fn encode_to_vec(&self) -> (r: Vec<u8>)
        ensures
            r@ == key_envelope_bytes(*self),
    {
        let mut buf: Vec<u8> = Vec::new();
        self.encode_raw(&mut buf);
        buf
    }
}

impl DataEnvelope {
    /// Appends the encoding of this envelope to `buf`.
    pub fn encode_raw(&self, buf: &mut Vec<u8>)
        ensures
            final(buf)@ == old(buf)@ + data_envelope_bytes(*self),
    {
        let ghost start = buf@;
        match &self.kind {
            Some(Kind::Payload(p)) => put_bytes(1, p, buf),
            None => {
                assert(start + Seq::<u8>::empty() == start);
            },
        }
        let ghost head = buf@;
        let mut i: usize = 0;
        assert(self.tracing@.take(0) =~= Seq::<(String, String)>::empty());
        assert(head + Seq::<u8>::empty() == head);
        while i < self.tracing.len()
            invariant
                i <= self.tracing@.len(),
                buf@ == head + tracing_bytes(self.tracing@.take(i as int)),
            decreases self.tracing@.len() - i,
        {
            let entry = &self.tracing[i];
            let mut inner: Vec<u8> = Vec::new();
            put_singular_string(1, &entry.0, &mut inner);
            put_singular_string(2, &entry.1, &mut inner);
            put_nested(2, &mut inner, buf);
            assert(self.tracing@.take(i + 1).drop_last() =~= self.tracing@.take(i as int));
            assert(self.tracing@.take(i + 1).last() == self.tracing@[i as int]);
            i += 1;
        }
        assert(self.tracing@.take(i as int) =~= self.tracing@);
    }

    /// The protobuf encoding of this envelope, the bytes of a DSH record value.
    pub fn encode_to_vec(&self) -> (r: Vec<u8>)
        ensures
            r@ == data_envelope_bytes(*self),
    {
        let mut buf: Vec<u8> = Vec::new();
        self.encode_raw(&mut buf);
        buf
    }
}

/// The fields of a key envelope are written independently: the encoding ends with the MQTT
/// topic field whatever the header is, starts with the header field whatever the topic is,
/// and an envelope without a header is the topic field alone (nothing when the topic is
/// empty).
pub proof fn lemma_key_envelope_fields_independent(e1: KeyEnvelope, e2: KeyEnvelope)
    ensures
        e1.key@ == e2.key@ ==> {
            let b1 = key_envelope_bytes(e1);
            let b2 = key_envelope_bytes(e2);
            let n = singular_string(2, e1.key@).len();
            &&& n <= b1.len()
            &&& n <= b2.len()
            &&& b1.subrange(b1.len() - n, b1.len() as int) == b2.subrange(
                b2.len() - n,
                b2.len() as int,
            )
        },
        e1.header == e2.header ==> {
            let b1 = key_envelope_bytes(e1);
            let b2 = key_envelope_bytes(e2);
            let m = (b1.len() - singular_string(2, e1.key@).len()) as int;
            &&& m <= b2.len()
            &&& b1.subrange(0, m) == b2.subrange(0, m)
        },
        e1.header is None && e1.key@.len() > 0 ==> key_envelope_bytes(e1) == field_key(2, 2)
            + varint(vstd::utf8::encode_utf8(e1.key@).len()) + vstd::utf8::encode_utf8(e1.key@),
        e1.header is None && e1.key@.len() == 0 ==> key_envelope_bytes(e1).len() == 0,
{
    let h1 = match e1.header {
        Some(h) => length_delimited(1, key_header_bytes(h)),
        None => Seq::empty(),
    };
    let h2 = match e2.header {
        Some(h) => length_delimited(1, key_header_bytes(h)),
        None => Seq::empty(),
    };
    let k1 = singular_string(2, e1.key@);
    let k2 = singular_string(2, e2.key@);
    assert(key_envelope_bytes(e1) == h1 + k1);
    assert(key_envelope_bytes(e2) == h2 + k2);
    assert((h1 + k1).subrange(h1.len() as int, (h1 + k1).len() as int) == k1);
    assert((h2 + k2).subrange(h2.len() as int, (h2 + k2).len() as int) == k2);
    assert((h1 + k1).subrange(0, h1.len() as int) == h1);
    assert((h2 + k2).subrange(0, h2.len() as int) == h2);
    if e1.header is None {
        assert(h1 + k1 == k1);
    }
}

/// A payload that is set is always written, even when it is empty: the encoding of a data
/// envelope with a payload starts with that payload as field 1 and differs from the encoding
/// of the same envelope without a payload, which is the tracing entries alone.
pub proof fn lemma_payload_always_written(d1: DataEnvelope, d2: DataEnvelope)
    ensures
        d1.kind matches Some(Kind::Payload(p)) ==> {
            let b = data_envelope_bytes(d1);
            let f = field_key(1, 2) + varint(p@.len()) + p@;
            &&& f.len() <= b.len()
            &&& b.subrange(0, f.len() as int) == f
        },
        d1.kind is Some && d2.kind is None && d1.tracing@ == d2.tracing@ ==> data_envelope_bytes(d1)
            != data_envelope_bytes(d2),
        d2.kind is None ==> data_envelope_bytes(d2) == tracing_bytes(d2.tracing@),
{
    let t1 = tracing_bytes(d1.tracing@);
    if let Some(Kind::Payload(p)) = d1.kind {
        let f = length_delimited(1, p@);
        assert(data_envelope_bytes(d1) == f + t1);
        assert((f + t1).subrange(0, f.len() as int) == f);
        assert(field_key(1, 2).len() > 0);
        if d2.kind is None && d1.tracing@ == d2.tracing@ {
            assert(data_envelope_bytes(d2) == Seq::<u8>::empty() + t1);
            assert(Seq::<u8>::empty() + t1 == t1);
            assert((f + t1).len() > t1.len());
        }
    }
    if d2.kind is None {
        assert(Seq::<u8>::empty() + tracing_bytes(d2.tracing@) == tracing_bytes(d2.tracing@));
    }
}

} // verus!
