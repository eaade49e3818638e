# dsh_sdk

Partitioning and message-envelope logic for Kafka on the DSH platform, verified with Verus.

- `src/utils/murmur2.rs`: Kafka's Murmur2 hash, proved equal to its specification.
- `src/utils/kafka.rs`: reduction of an MQTT topic to its first levels, with its laws.
- `src/utils/protobuf.rs`: the protobuf wire format of the envelope fields, written through
  `prost`'s encoding functions.
- `src/protocol_adapters/kafka_protocol/`: the DSH partitioners and producer context
  (`rdkafka.rs`), partition computation (`utils.rs`), client settings (`config.rs`) and the DSH
  key and data envelopes (`dsh_envelope.rs`).
- `src/stream_producer.rs`: the records of the DSH stream producer.
- `app/main.rs`: the stream producer program, which runs the library against rdkafka.
