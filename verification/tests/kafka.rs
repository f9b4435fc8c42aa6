use statefun::{Effects, EgressIdentifier, KafkaEgress, KafkaProducerRecord, Serializable};
use statefun::kafka::{decode_kafka_record, egress_record, encode_kafka_record,
    keyed_egress_record};

#[test]
fn kafka_record_wire_format_is_exact() {
    let record = KafkaProducerRecord {
        key: "".to_string(),
        topic: "t".to_string(),
        value_bytes: vec![1, 2],
    };
    assert_eq!(encode_kafka_record(&record), vec![18, 1, 116, 26, 2, 1, 2]);

    let keyed = KafkaProducerRecord {
        key: "k".to_string(),
        topic: "t".to_string(),
        value_bytes: vec![7],
    };
    assert_eq!(encode_kafka_record(&keyed), vec![10, 1, 107, 18, 1, 116, 26, 1, 7]);
}

#[test]
fn kafka_record_round_trips() {
    let record = KafkaProducerRecord {
        key: "user-7".to_string(),
        topic: "greetings".to_string(),
        value_bytes: vec![1, 2, 3, 4, 5],
    };
    let encoded = encode_kafka_record(&record);
    let decoded = decode_kafka_record(&encoded).unwrap();
    assert_eq!(decoded, record);

    // decoding through the serialization interface agrees
    let via_trait = KafkaProducerRecord::deserialize("ignored".to_string(), &encoded).unwrap();
    assert_eq!(via_trait, record);
}

#[test]
fn kafka_egress_forwards_a_producer_record() {
    let mut effects = Effects::new();
    effects
        .kafka_keyed_egress(
            EgressIdentifier::new("example", "kafka"),
            "greetings",
            "alice",
            &"hello".to_string(),
        )
        .unwrap();

    assert_eq!(effects.egress_messages.len(), 1);
    let (identifier, typename, bytes) = &effects.egress_messages[0];
    assert_eq!(identifier.namespace, "example");
    assert_eq!(identifier.name, "kafka");
    assert_eq!(
        typename,
        "type.googleapis.com/io.statefun.sdk.egress.KafkaProducerRecord"
    );

    let record = decode_kafka_record(bytes).unwrap();
    assert_eq!(record.key, "alice");
    assert_eq!(record.topic, "greetings");
    assert_eq!(
        String::deserialize("io.statefun.types/string".to_string(), &record.value_bytes).unwrap(),
        "hello"
    );
}

#[test]
fn egress_record_builders() {
    let unkeyed = egress_record("topic-a", &"v".to_string()).unwrap();
    assert_eq!(unkeyed.key, "");
    assert_eq!(unkeyed.topic, "topic-a");

    let keyed = keyed_egress_record("topic-a", "k1", &"v".to_string()).unwrap();
    assert_eq!(keyed.key, "k1");
    assert_eq!(keyed.topic, "topic-a");
    assert_eq!(keyed.value_bytes, unkeyed.value_bytes);
}
