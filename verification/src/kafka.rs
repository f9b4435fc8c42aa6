//! Sending egress messages to Kafka: a producer-record value and the helper
//! that forwards it through the generic egress effect.

use vstd::prelude::*;
use vstd::string::StrSliceExecFns;

use crate::codec::{bytes_to_string, spec_ld_field, spec_take_field, take_field, write_ld_field};
use crate::effects::{Effects, EffectsView};
use crate::egress_identifier::EgressIdentifier;
use crate::traits::{Serializable, TypeName};
use crate::type_spec::GetTypename;

verus! {

/// The mathematical value of a [`KafkaProducerRecord`].
pub struct KafkaProducerRecordView {
    /// The record key; empty when the record is unkeyed.
    pub key: Seq<char>,
    /// The topic the record is produced to.
    pub topic: Seq<char>,
    /// The record payload.
    pub value_bytes: Seq<u8>,
}

/// A record for a Kafka egress: the topic, an optional key, and the payload
/// bytes. The coordinator's Kafka egress understands values of this shape
/// under its well-known type name.
#[derive(Debug, PartialEq)]
pub struct KafkaProducerRecord {
    /// The record key; empty when the record is unkeyed.
    pub key: String,
    /// The topic the record is produced to.
    pub topic: String,
    /// The record payload.
    pub value_bytes: Vec<u8>,
}

impl View for KafkaProducerRecord {
    type V = KafkaProducerRecordView;

    open spec fn view(&self) -> KafkaProducerRecordView {
        KafkaProducerRecordView {
            key: self.key@,
            topic: self.topic@,
            value_bytes: self.value_bytes@,
        }
    }
}

/// The wire form of a producer record: the key, topic and payload fields in
/// field order, each omitted when empty.
pub open spec fn spec_encode_kafka_record(r: KafkaProducerRecordView) -> Seq<u8> {
    spec_ld_field(10, vstd::utf8::encode_utf8(r.key)) + spec_ld_field(
        18,
        vstd::utf8::encode_utf8(r.topic),
    ) + spec_ld_field(26, r.value_bytes)
}

/// Reads the wire form of a producer record: the three optional fields in
/// field order, filling the whole buffer, the two strings valid UTF-8.
pub open spec fn spec_decode_kafka_record(s: Seq<u8>) -> Option<KafkaProducerRecordView> {
    match spec_take_field(s, 10) {
        None => None,
        Some((key_bytes, s1)) => match spec_take_field(s1, 18) {
            None => None,
            Some((topic_bytes, s2)) => match spec_take_field(s2, 26) {
                None => None,
                Some((value_bytes, s3)) => {
                    if s3.len() == 0 && vstd::utf8::valid_utf8(key_bytes)
                        && vstd::utf8::valid_utf8(topic_bytes) {
                        Some(
                            KafkaProducerRecordView {
                                key: vstd::utf8::decode_utf8(key_bytes),
                                topic: vstd::utf8::decode_utf8(topic_bytes),
                                value_bytes,
                            },
                        )
                    } else {
                        None
                    }
                },
            },
        },
    }
}

/// Encodes a producer record to its wire form.
pub fn encode_kafka_record(r: &KafkaProducerRecord) -> (out: Vec<u8>)
    ensures
        out@ == spec_encode_kafka_record(r@),
{
    let mut out: Vec<u8> = Vec::new();
    let key_bytes = r.key.as_str().as_bytes_vec();
    let topic_bytes = r.topic.as_str().as_bytes_vec();
    write_ld_field(&mut out, 10, &key_bytes);
    write_ld_field(&mut out, 18, &topic_bytes);
    write_ld_field(&mut out, 26, &r.value_bytes);
    proof {
        assert(out@ =~= spec_encode_kafka_record(r@));
    }
    out
}

/// Decodes a producer record from its wire form.
pub fn decode_kafka_record(buf: &Vec<u8>) -> (r: Option<KafkaProducerRecord>)
    ensures
        ({
            let d = spec_decode_kafka_record(buf@);
            &&& r is Some <==> d is Some
            &&& r is Some ==> r->0@ == d->0
        }),
{
    proof {
        assert(buf@.skip(0) =~= buf@);
    }
    let (key_bytes, p1) = match take_field(buf, 0, 10) {
        Option::None => {
            return None;
        },
        Option::Some(x) => x,
    };
    let (topic_bytes, p2) = match take_field(buf, p1, 18) {
        Option::None => {
            return None;
        },
        Option::Some(x) => x,
    };
    let (value_bytes, p3) = match take_field(buf, p2, 26) {
        Option::None => {
            return None;
        },
        Option::Some(x) => x,
    };
    if p3 != buf.len() {
        proof {
            assert(buf@.skip(p3 as int).len() > 0);
        }
        return None;
    }
    proof {
        assert(buf@.skip(p3 as int).len() == 0);
    }
    let key = match bytes_to_string(key_bytes) {
        Option::None => {
            return None;
        },
        Option::Some(s) => s,
    };
    let topic = match bytes_to_string(topic_bytes) {
        Option::None => {
            return None;
        },
        Option::Some(s) => s,
    };
    proof {
        vstd::utf8::encode_utf8_decode_utf8(key@);
        vstd::utf8::encode_utf8_decode_utf8(topic@);
    }
    Some(KafkaProducerRecord { key, topic, value_bytes })
}

impl TypeName for KafkaProducerRecord {
    open spec fn typename_spec() -> Seq<char> {
        "type.googleapis.com/io.statefun.sdk.egress.KafkaProducerRecord"@
    }

    fn get_typename() -> (r: &'static str)
        ensures
            r@ == <KafkaProducerRecord as TypeName>::typename_spec(),
    {
        "type.googleapis.com/io.statefun.sdk.egress.KafkaProducerRecord"
    }
}

impl Serializable<KafkaProducerRecord> for KafkaProducerRecord {
    open spec fn ser_spec(&self, typename: Seq<char>) -> Result<Seq<u8>, Seq<char>> {
        Ok(spec_encode_kafka_record(self@))
    }

    open spec fn deser_spec(typename: Seq<char>, buffer: Seq<u8>) -> Result<
        KafkaProducerRecordView,
        Seq<char>,
    > {
        match spec_decode_kafka_record(buffer) {
            Some(r) => Ok(r),
            None => Err("the payload is not a Kafka producer record"@),
        }
    }

    fn serialize(&self, typename: String) -> (r: Result<Vec<u8>, String>) {
        Ok(encode_kafka_record(self))
    }

    fn deserialize(typename: String, buffer: &Vec<u8>) -> (r: Result<KafkaProducerRecord, String>) {
        match decode_kafka_record(buffer) {
            Option::Some(record) => Ok(record),
            Option::None => Err("the payload is not a Kafka producer record".to_owned()),
        }
    }
}

/// Builds the record that sends `value`, serialized under its own type name,
/// to the Kafka topic `topic`, unkeyed.
pub fn egress_record<T: Serializable<T> + GetTypename>(topic: &str, value: &T) -> (r: Result<
    KafkaProducerRecord,
    String,
>)
    ensures
        ({
            let s = value.ser_spec(<T as GetTypename>::typename_spec());
            &&& r is Ok <==> s is Ok
            &&& r is Ok ==> r->Ok_0@ == (KafkaProducerRecordView {
                key: Seq::empty(),
                topic: topic@,
                value_bytes: s->Ok_0,
            })
            &&& r is Err ==> r->Err_0@ == s->Err_0
        }),
{
    let typename = <T as GetTypename>::get_typename().to_owned();
    let serialized = match value.serialize(typename) {
        Ok(b) => b,
        Err(e) => {
            return Err(e);
        },
    };
    Ok(KafkaProducerRecord { key: String::new(), topic: topic.to_owned(), value_bytes: serialized })
}

/// Builds the record that sends `value`, serialized under its own type name,
/// to the Kafka topic `topic` under the given key.
pub fn keyed_egress_record<T: Serializable<T> + GetTypename>(
    topic: &str,
    key: &str,
    value: &T,
) -> (r: Result<KafkaProducerRecord, String>)
    ensures
        ({
            let s = value.ser_spec(<T as GetTypename>::typename_spec());
            &&& r is Ok <==> s is Ok
            &&& r is Ok ==> r->Ok_0@ == (KafkaProducerRecordView {
                key: key@,
                topic: topic@,
                value_bytes: s->Ok_0,
            })
            &&& r is Err ==> r->Err_0@ == s->Err_0
        }),
{
    let mut record = match egress_record(topic, value) {
        Ok(record) => record,
        Err(e) => {
            return Err(e);
        },
    };
    record.key = key.to_owned();
    Ok(record)
}

/// Extension trait for sending egress messages to Kafka through the generic
/// egress effect.
pub trait KafkaEgress: View<V = EffectsView> {
    /// Sends the given message to the Kafka topic `topic` via the egress
    /// specified by the `EgressIdentifier`.
    fn kafka_egress<T: Serializable<T> + GetTypename>(
        &mut self,
        identifier: EgressIdentifier,
        topic: &str,
        value: &T,
    ) -> (r: Result<(), String>)
        ensures
            ({
                let s = value.ser_spec(<T as GetTypename>::typename_spec());
                &&& r is Ok <==> s is Ok
                &&& r is Ok ==> final(self)@ == (EffectsView {
                    egress_messages: old(self)@.egress_messages.push(
                        (
                            identifier@,
                            <KafkaProducerRecord as TypeName>::typename_spec(),
                            spec_encode_kafka_record(
                                KafkaProducerRecordView {
                                    key: Seq::empty(),
                                    topic: topic@,
                                    value_bytes: s->Ok_0,
                                },
                            ),
                        ),
                    ),
                    ..old(self)@
                })
                &&& r is Err ==> final(self)@ == old(self)@ && r->Err_0@ == s->Err_0
            }),
    ;

    /// Sends the given message to the Kafka topic `topic` via the egress
    /// specified by the `EgressIdentifier`, keyed by `key`.
    fn kafka_keyed_egress<T: Serializable<T> + GetTypename>(
        &mut self,
        identifier: EgressIdentifier,
        topic: &str,
        key: &str,
        value: &T,
    ) -> (r: Result<(), String>)
        ensures
            ({
                let s = value.ser_spec(<T as GetTypename>::typename_spec());
                &&& r is Ok <==> s is Ok
                &&& r is Ok ==> final(self)@ == (EffectsView {
                    egress_messages: old(self)@.egress_messages.push(
                        (
                            identifier@,
                            <KafkaProducerRecord as TypeName>::typename_spec(),
                            spec_encode_kafka_record(
                                KafkaProducerRecordView {
                                    key: key@,
                                    topic: topic@,
                                    value_bytes: s->Ok_0,
                                },
                            ),
                        ),
                    ),
                    ..old(self)@
                })
                &&& r is Err ==> final(self)@ == old(self)@ && r->Err_0@ == s->Err_0
            }),
    ;
}

impl KafkaEgress for Effects {
    fn kafka_egress<T: Serializable<T> + GetTypename>(
        &mut self,
        identifier: EgressIdentifier,
        topic: &str,
        value: &T,
    ) -> (r: Result<(), String>) {
        let record = match egress_record(topic, value) {
            Ok(record) => record,
            Err(e) => {
                return Err(e);
            },
        };
        self.egress(identifier, &record)
    }

    fn kafka_keyed_egress<T: Serializable<T> + GetTypename>(
        &mut self,
        identifier: EgressIdentifier,
        topic: &str,
        key: &str,
        value: &T,
    ) -> (r: Result<(), String>) {
        let record = match keyed_egress_record(topic, key, value) {
            Ok(record) => record,
            Err(e) => {
                return Err(e);
            },
        };
        self.egress(identifier, &record)
    }
}

} // verus!
