//! The built-in types' serialization contracts, and the round trips they
//! satisfy.

use vstd::prelude::*;

use crate::codec::{decode_bool, decode_i32, decode_i64, decode_string, encode_bool, encode_i32,
    encode_i64, encode_string, spec_decode_bool, spec_decode_i32, spec_decode_i64,
    spec_decode_string, spec_encode_bool, spec_encode_i32, spec_encode_i64, spec_encode_string,
    lemma_le32_round_trip, lemma_le64_round_trip, lemma_varint_round_trip};
use crate::traits::Serializable;

verus! {

impl Serializable<bool> for bool {
    open spec fn ser_spec(&self, typename: Seq<char>) -> Result<Seq<u8>, Seq<char>> {
        Ok(spec_encode_bool(*self))
    }

    open spec fn deser_spec(typename: Seq<char>, buffer: Seq<u8>) -> Result<bool, Seq<char>> {
        match spec_decode_bool(buffer) {
            Some(b) => Ok(b),
            None => Err("the payload is not a boolean wrapper"@),
        }
    }

    fn serialize(&self, typename: String) -> (r: Result<Vec<u8>, String>) {
        Ok(encode_bool(*self))
    }

    fn deserialize(typename: String, buffer: &Vec<u8>) -> (r: Result<bool, String>) {
        match decode_bool(buffer) {
            Option::Some(b) => Ok(b),
            Option::None => Err("the payload is not a boolean wrapper".to_owned()),
        }
    }
}

impl Serializable<i32> for i32 {
    open spec fn ser_spec(&self, typename: Seq<char>) -> Result<Seq<u8>, Seq<char>> {
        Ok(spec_encode_i32(*self))
    }

    open spec fn deser_spec(typename: Seq<char>, buffer: Seq<u8>) -> Result<i32, Seq<char>> {
        match spec_decode_i32(buffer) {
            Some(v) => Ok(v),
            None => Err("the payload is not an integer wrapper"@),
        }
    }

    fn serialize(&self, typename: String) -> (r: Result<Vec<u8>, String>) {
        Ok(encode_i32(*self))
    }

    fn deserialize(typename: String, buffer: &Vec<u8>) -> (r: Result<i32, String>) {
        match decode_i32(buffer) {
            Option::Some(v) => Ok(v),
            Option::None => Err("the payload is not an integer wrapper".to_owned()),
        }
    }
}

impl Serializable<i64> for i64 {
    open spec fn ser_spec(&self, typename: Seq<char>) -> Result<Seq<u8>, Seq<char>> {
        Ok(spec_encode_i64(*self))
    }

    open spec fn deser_spec(typename: Seq<char>, buffer: Seq<u8>) -> Result<i64, Seq<char>> {
        match spec_decode_i64(buffer) {
            Some(v) => Ok(v),
            None => Err("the payload is not a long wrapper"@),
        }
    }

    fn serialize(&self, typename: String) -> (r: Result<Vec<u8>, String>) {
        Ok(encode_i64(*self))
    }

    fn deserialize(typename: String, buffer: &Vec<u8>) -> (r: Result<i64, String>) {
        match decode_i64(buffer) {
            Option::Some(v) => Ok(v),
            Option::None => Err("the payload is not a long wrapper".to_owned()),
        }
    }
}

impl Serializable<String> for String {
    open spec fn ser_spec(&self, typename: Seq<char>) -> Result<Seq<u8>, Seq<char>> {
        Ok(spec_encode_string(self@))
    }

    open spec fn deser_spec(typename: Seq<char>, buffer: Seq<u8>) -> Result<Seq<char>, Seq<char>> {
        match spec_decode_string(buffer) {
            Some(s) => Ok(s),
            None => Err("the payload is not a string wrapper"@),
        }
    }

    fn serialize(&self, typename: String) -> (r: Result<Vec<u8>, String>) {
        Ok(encode_string(self.as_str()))
    }

    fn deserialize(typename: String, buffer: &Vec<u8>) -> (r: Result<String, String>) {
        match decode_string(buffer) {
            Option::Some(s) => Ok(s),
            Option::None => Err("the payload is not a string wrapper".to_owned()),
        }
    }
}

/// Decoding an encoded boolean yields the encoded value.
pub proof fn lemma_round_trip_bool(b: bool, typename: Seq<char>)
    ensures
        b.ser_spec(typename) is Ok,
        <bool as Serializable<bool>>::deser_spec(typename, b.ser_spec(typename)->Ok_0)
            == Ok::<bool, Seq<char>>(b),
{
    let s = spec_encode_bool(b);
    if b {
        assert(s.drop_first() =~= seq![1u8]);
        assert(s.drop_first().drop_first() =~= Seq::<u8>::empty());
        assert(spec_decode_bool(s) == Some(true));
    }
}

/// Decoding an encoded 32-bit integer yields the encoded value.
pub proof fn lemma_round_trip_i32(v: i32, typename: Seq<char>)
    ensures
        v.ser_spec(typename) is Ok,
        <i32 as Serializable<i32>>::deser_spec(typename, v.ser_spec(typename)->Ok_0)
            == Ok::<i32, Seq<char>>(v),
{
    if v != 0 {
        let s = spec_encode_i32(v);
        let u = v as u32;
        lemma_le32_round_trip(u);
        assert(s.len() == 5 && s[0] == 13);
        assert(s[1] == crate::codec::spec_le32(u)[0]);
        assert(s[2] == crate::codec::spec_le32(u)[1]);
        assert(s[3] == crate::codec::spec_le32(u)[2]);
        assert(s[4] == crate::codec::spec_le32(u)[3]);
        assert(((v as u32) as i32) == v) by (bit_vector);
    }
}

/// Decoding an encoded 64-bit integer yields the encoded value.
pub proof fn lemma_round_trip_i64(v: i64, typename: Seq<char>)
    ensures
        v.ser_spec(typename) is Ok,
        <i64 as Serializable<i64>>::deser_spec(typename, v.ser_spec(typename)->Ok_0)
            == Ok::<i64, Seq<char>>(v),
{
    if v != 0 {
        let s = spec_encode_i64(v);
        let u = v as u64;
        let lo = (u % 4294967296) as u32;
        let hi = (u / 4294967296) as u32;
        lemma_le32_round_trip(lo);
        lemma_le32_round_trip(hi);
        lemma_le64_round_trip(u);
        assert(s.len() == 9 && s[0] == 9);
        assert(s[1] == crate::codec::spec_le32(lo)[0]);
        assert(s[2] == crate::codec::spec_le32(lo)[1]);
        assert(s[3] == crate::codec::spec_le32(lo)[2]);
        assert(s[4] == crate::codec::spec_le32(lo)[3]);
        assert(s[5] == crate::codec::spec_le32(hi)[0]);
        assert(s[6] == crate::codec::spec_le32(hi)[1]);
        assert(s[7] == crate::codec::spec_le32(hi)[2]);
        assert(s[8] == crate::codec::spec_le32(hi)[3]);
        assert(((v as u64) as i64) == v) by (bit_vector);
    }
}

/// Decoding an encoded string yields the encoded characters. The encoding of
/// a representable string fits the length field.
pub proof fn lemma_round_trip_string(s: Seq<char>, typename: Seq<char>)
    requires
        vstd::utf8::encode_utf8(s).len() <= u64::MAX,
    ensures
        spec_decode_string(spec_encode_string(s)) == Some(s),
        <String as Serializable<String>>::deser_spec(typename, spec_encode_string(s))
            == Ok::<Seq<char>, Seq<char>>(s),
{
    if s.len() != 0 {
        let bytes = vstd::utf8::encode_utf8(s);
        let enc = spec_encode_string(s);
        lemma_varint_round_trip(bytes.len() as u64, bytes);
        assert(enc[0] == 10);
        assert(enc.drop_first() =~= crate::codec::spec_varint(bytes.len() as u64) + bytes);
        vstd::utf8::encode_utf8_valid_utf8(s);
        vstd::utf8::encode_utf8_decode_utf8(s);
        assert(bytes.len() > 0) by {
            assert(vstd::utf8::encode_scalar(s[0] as u32).len() >= 1);
        }
    }
}

} // verus!
