//! The built-in codecs: the wire forms of booleans, integers and strings
//! that interoperate bit-exactly with the coordinator's well-known wrapper
//! messages. Each wrapper is a message with a single field numbered one; a
//! default value encodes to an empty message and an empty message decodes to
//! the default value.

use vstd::prelude::*;
use vstd::string::StrSliceExecFns;

use crate::typed_value::clone_bytes;

verus! {

/// The base-128 varint encoding of `n`: seven value bits per byte, least
/// significant group first, the high bit marking continuation.
pub open spec fn spec_varint(n: u64) -> Seq<u8>
    decreases n,
{
    if n < 128 {
        seq![n as u8]
    } else {
        seq![(n % 128 + 128) as u8] + spec_varint(n / 128)
    }
}

/// Reads one varint from the front of `s`: the decoded value and the bytes
/// that follow it, or nothing when `s` is exhausted early or the value
/// overflows sixty-four bits.
pub open spec fn spec_read_varint(s: Seq<u8>) -> Option<(u64, Seq<u8>)>
    decreases s.len(),
{
    if s.len() == 0 {
        None
    } else if s[0] < 128 {
        Some((s[0] as u64, s.drop_first()))
    } else {
        match spec_read_varint(s.drop_first()) {
            None => None,
            Some((v, rest)) => {
                if (s[0] - 128) + 128 * v <= u64::MAX {
                    Some((((s[0] - 128) + 128 * v) as u64, rest))
                } else {
                    None
                }
            },
        }
    }
}

/// Reading back an encoded varint yields the encoded value and leaves what
/// follows untouched.
pub proof fn lemma_varint_round_trip(n: u64, rest: Seq<u8>)
    ensures
        spec_read_varint(spec_varint(n) + rest) == Some((n, rest)),
    decreases n,
{
    let s = spec_varint(n) + rest;
    if n < 128 {
        assert(s.drop_first() =~= rest);
    } else {
        lemma_varint_round_trip(n / 128, rest);
        assert(s.drop_first() =~= spec_varint(n / 128) + rest);
        assert((s[0] - 128) + 128 * (n / 128) == n) by {
            assert(s[0] == n % 128 + 128);
            assert(n % 128 + 128 * (n / 128) == n) by (nonlinear_arith);
        }
    }
}

/// Reads one varint from `buf` starting at `p`: the decoded value and the
/// position just past it.
pub fn read_varint(buf: &Vec<u8>, p: usize) -> (r: Option<(u64, usize)>)
    requires
        p <= buf.len(),
    ensures
        match r {
            Option::None => spec_read_varint(buf@.skip(p as int)) is None,
            Option::Some((v, q)) => {
                &&& p < q <= buf.len()
                &&& spec_read_varint(buf@.skip(p as int)) == Some((v, buf@.skip(q as int)))
            },
        },
    decreases buf.len() - p,
{
    if p == buf.len() {
        proof {
            assert(buf@.skip(p as int) =~= Seq::<u8>::empty());
        }
        return None;
    }
    let b = buf[p];
    proof {
        assert(buf@.skip(p as int)[0] == b);
        assert(buf@.skip(p as int).drop_first() =~= buf@.skip(p as int + 1));
    }
    if b < 128 {
        return Some((b as u64, p + 1));
    }
    match read_varint(buf, p + 1) {
        Option::None => None,
        Option::Some((v, q)) => {
            let r: u64 = (b - 128) as u64;
            if v <= (u64::MAX - r) / 128 {
                proof {
                    assert(r + 128 * v <= u64::MAX) by (nonlinear_arith)
                        requires
                            v <= (u64::MAX - r) / 128,
                            r < 128,
                    ;
                }
                Some((r + 128 * v, q))
            } else {
                proof {
                    assert(r + 128 * v > u64::MAX) by (nonlinear_arith)
                        requires
                            v > (u64::MAX - r) / 128,
                            r < 128,
                    ;
                }
                None
            }
        },
    }
}

/// Appends the varint encoding of `n` to `out`.
pub fn write_varint(out: &mut Vec<u8>, n: u64)
    ensures
        final(out)@ == old(out)@ + spec_varint(n),
    decreases n,
{
    if n < 128 {
        out.push(n as u8);
        proof {
            assert(out@ =~= old(out)@ + spec_varint(n));
        }
    } else {
        out.push((n % 128 + 128) as u8);
        let ghost mid = out@;
        write_varint(out, n / 128);
        proof {
            assert(out@ =~= old(out)@ + spec_varint(n));
        }
    }
}

/// The four little-endian bytes of `u`.
pub open spec fn spec_le32(u: u32) -> Seq<u8> {
    seq![
        (u % 256) as u8,
        ((u / 256) % 256) as u8,
        ((u / 65536) % 256) as u8,
        ((u / 16777216) % 256) as u8,
    ]
}

/// The value of four little-endian bytes.
pub open spec fn spec_u32_le(b0: u8, b1: u8, b2: u8, b3: u8) -> u32 {
    (b0 + 256 * b1 + 65536 * b2 + 16777216 * b3) as u32
}

/// Reassembling the four little-endian bytes of `u` yields `u`.
pub proof fn lemma_le32_round_trip(u: u32)
    ensures
        spec_u32_le(
            spec_le32(u)[0],
            spec_le32(u)[1],
            spec_le32(u)[2],
            spec_le32(u)[3],
        ) == u,
{
    let x = u as int;
    vstd::arithmetic::div_mod::lemma_fundamental_div_mod(x, 256);
    vstd::arithmetic::div_mod::lemma_fundamental_div_mod(x / 256, 256);
    vstd::arithmetic::div_mod::lemma_fundamental_div_mod(x / 65536, 256);
    vstd::arithmetic::div_mod::lemma_div_denominator(x, 256, 256);
    vstd::arithmetic::div_mod::lemma_div_denominator(x, 65536, 256);
    assert(u / 16777216 < 256);
}

/// The eight little-endian bytes of `u`.
pub open spec fn spec_le64(u: u64) -> Seq<u8> {
    spec_le32((u % 4294967296) as u32) + spec_le32((u / 4294967296) as u32)
}

/// The value of eight little-endian bytes, given as two four-byte groups.
pub open spec fn spec_u64_le(lo: u32, hi: u32) -> u64 {
    (lo + 4294967296 * hi) as u64
}

/// Reassembling the eight little-endian bytes of `u` yields `u`.
pub proof fn lemma_le64_round_trip(u: u64)
    ensures
        spec_u64_le((u % 4294967296) as u32, (u / 4294967296) as u32) == u,
{
    vstd::arithmetic::div_mod::lemma_fundamental_div_mod(u as int, 4294967296);
}

/// Appends the four little-endian bytes of `u` to `out`.
pub fn write_le32(out: &mut Vec<u8>, u: u32)
    ensures
        final(out)@ == old(out)@ + spec_le32(u),
{
    out.push((u % 256) as u8);
    out.push(((u / 256) % 256) as u8);
    out.push(((u / 65536) % 256) as u8);
    out.push(((u / 16777216) % 256) as u8);
    proof {
        assert(out@ =~= old(out)@ + spec_le32(u));
    }
}

/// Reads four little-endian bytes of `buf` starting at `p`.
pub fn read_le32(buf: &Vec<u8>, p: usize) -> (r: u32)
    requires
        p + 4 <= buf.len(),
    ensures
        r == spec_u32_le(
            buf@[p as int],
            buf@[p as int + 1],
            buf@[p as int + 2],
            buf@[p as int + 3],
        ),
{
    let b0 = buf[p] as u32;
    let b1 = buf[p + 1] as u32;
    let b2 = buf[p + 2] as u32;
    let b3 = buf[p + 3] as u32;
    b0 + 256 * b1 + 65536 * b2 + 16777216 * b3
}

/// The wire form of the boolean wrapper message: a single varint field
/// numbered one; `false` is the default and encodes to an empty message.
pub open spec fn spec_encode_bool(b: bool) -> Seq<u8> {
    if b {
        seq![8u8, 1u8]
    } else {
        Seq::empty()
    }
}

/// Reads the boolean wrapper message: the empty message is the default
/// `false`; otherwise the single field must carry a varint, whose value is
/// read as nonzero-means-true.
pub open spec fn spec_decode_bool(s: Seq<u8>) -> Option<bool> {
    if s.len() == 0 {
        Some(false)
    } else if s[0] != 8 {
        None
    } else {
        match spec_read_varint(s.drop_first()) {
            None => None,
            Some((v, rest)) => {
                if rest.len() == 0 {
                    Some(v != 0)
                } else {
                    None
                }
            },
        }
    }
}

/// The wire form of the 32-bit integer wrapper message: a single
/// fixed-width, little-endian, signed field numbered one; zero encodes to an
/// empty message.
pub open spec fn spec_encode_i32(v: i32) -> Seq<u8> {
    if v == 0 {
        Seq::empty()
    } else {
        seq![13u8] + spec_le32(v as u32)
    }
}

/// Reads the 32-bit integer wrapper message.
pub open spec fn spec_decode_i32(s: Seq<u8>) -> Option<i32> {
    if s.len() == 0 {
        Some(0)
    } else if s.len() == 5 && s[0] == 13 {
        Some(spec_u32_le(s[1], s[2], s[3], s[4]) as i32)
    } else {
        None
    }
}

/// The wire form of the 64-bit integer wrapper message: a single
/// fixed-width, little-endian, signed field numbered one; zero encodes to an
/// empty message.
pub open spec fn spec_encode_i64(v: i64) -> Seq<u8> {
    if v == 0 {
        Seq::empty()
    } else {
        seq![9u8] + spec_le64(v as u64)
    }
}

/// Reads the 64-bit integer wrapper message.
pub open spec fn spec_decode_i64(s: Seq<u8>) -> Option<i64> {
    if s.len() == 0 {
        Some(0)
    } else if s.len() == 9 && s[0] == 9 {
        Some(
            spec_u64_le(
                spec_u32_le(s[1], s[2], s[3], s[4]),
                spec_u32_le(s[5], s[6], s[7], s[8]),
            ) as i64,
        )
    } else {
        None
    }
}

/// The wire form of the string wrapper message: a single length-delimited
/// field numbered one holding the string's UTF-8 bytes; the empty string
/// encodes to an empty message.
pub open spec fn spec_encode_string(s: Seq<char>) -> Seq<u8> {
    if s.len() == 0 {
        Seq::empty()
    } else {
        let bytes = vstd::utf8::encode_utf8(s);
        seq![10u8] + spec_varint(bytes.len() as u64) + bytes
    }
}

/// Reads the string wrapper message: the length-delimited payload must fill
/// the rest of the message and hold valid UTF-8.
pub open spec fn spec_decode_string(s: Seq<u8>) -> Option<Seq<char>> {
    if s.len() == 0 {
        Some(Seq::empty())
    } else if s[0] != 10 {
        None
    } else {
        match spec_read_varint(s.drop_first()) {
            None => None,
            Some((len, bytes)) => {
                if bytes.len() == len && vstd::utf8::valid_utf8(bytes) {
                    Some(vstd::utf8::decode_utf8(bytes))
                } else {
                    None
                }
            },
        }
    }
}

/// Encodes the boolean wrapper message.
pub fn encode_bool(b: bool) -> (r: Vec<u8>)
    ensures
        r@ == spec_encode_bool(b),
{
    let mut out: Vec<u8> = Vec::new();
    if b {
        out.push(8);
        out.push(1);
    }
    proof {
        assert(out@ =~= spec_encode_bool(b));
    }
    out
}

/// Decodes the boolean wrapper message.
pub fn decode_bool(buf: &Vec<u8>) -> (r: Option<bool>)
    ensures
        r == spec_decode_bool(buf@),
{
    if buf.len() == 0 {
        return Some(false);
    }
    if buf[0] != 8 {
        return None;
    }
    proof {
        assert(buf@.skip(1) =~= buf@.drop_first());
    }
    match read_varint(buf, 1) {
        Option::None => None,
        Option::Some((v, q)) => {
            if q == buf.len() {
                proof {
                    assert(buf@.skip(q as int).len() == 0);
                }
                Some(v != 0)
            } else {
                proof {
                    assert(buf@.skip(q as int).len() > 0);
                }
                None
            }
        },
    }
}

/// Encodes the 32-bit integer wrapper message.
pub fn encode_i32(v: i32) -> (r: Vec<u8>)
    ensures
        r@ == spec_encode_i32(v),
{
    let mut out: Vec<u8> = Vec::new();
    if v != 0 {
        out.push(13);
        write_le32(&mut out, #[verifier::truncate] (v as u32));
    }
    proof {
        assert(out@ =~= spec_encode_i32(v));
    }
    out
}

/// Decodes the 32-bit integer wrapper message.
pub fn decode_i32(buf: &Vec<u8>) -> (r: Option<i32>)
    ensures
        r == spec_decode_i32(buf@),
{
    if buf.len() == 0 {
        return Some(0);
    }
    if buf.len() == 5 && buf[0] == 13 {
        let u = read_le32(buf, 1);
        Some(#[verifier::truncate] (u as i32))
    } else {
        None
    }
}

/// Encodes the 64-bit integer wrapper message.
pub fn encode_i64(v: i64) -> (r: Vec<u8>)
    ensures
        r@ == spec_encode_i64(v),
{
    let mut out: Vec<u8> = Vec::new();
    if v != 0 {
        out.push(9);
        let u = #[verifier::truncate] (v as u64);
        write_le32(&mut out, (u % 4294967296) as u32);
        write_le32(&mut out, (u / 4294967296) as u32);
    }
    proof {
        assert(out@ =~= spec_encode_i64(v));
    }
    out
}

/// Decodes the 64-bit integer wrapper message.
pub fn decode_i64(buf: &Vec<u8>) -> (r: Option<i64>)
    ensures
        r == spec_decode_i64(buf@),
{
    if buf.len() == 0 {
        return Some(0);
    }
    if buf.len() == 9 && buf[0] == 9 {
        let lo = read_le32(buf, 1);
        let hi = read_le32(buf, 5);
        let u: u64 = lo as u64 + 4294967296 * (hi as u64);
        proof {
            assert(u == spec_u64_le(lo, hi));
        }
        Some(#[verifier::truncate] (u as i64))
    } else {
        None
    }
}

/// Encodes the string wrapper message.
pub fn encode_string(s: &str) -> (r: Vec<u8>)
    ensures
        r@ == spec_encode_string(s@),
{
    let mut bytes = s.as_bytes_vec();
    if bytes.len() == 0 {
        proof {
            lemma_encode_utf8_empty(s@);
            assert(bytes@ =~= spec_encode_string(s@));
        }
        return bytes;
    }
    let mut out: Vec<u8> = Vec::new();
    out.push(10);
    write_varint(&mut out, bytes.len() as u64);
    let ghost mid = out@;
    out.append(&mut bytes);
    proof {
        lemma_encode_utf8_empty(s@);
        assert(out@ =~= spec_encode_string(s@));
    }
    out
}

/// Decodes the string wrapper message.
pub fn decode_string(buf: &Vec<u8>) -> (r: Option<String>)
    ensures
        ({
            let d = spec_decode_string(buf@);
            &&& r is Some <==> d is Some
            &&& r is Some ==> r->0@ == d->0
        }),
{
    if buf.len() == 0 {
        proof {
            vstd::utf8::encode_utf8_valid_utf8(Seq::<char>::empty());
            vstd::utf8::encode_utf8_decode_utf8(Seq::<char>::empty());
            assert(vstd::utf8::encode_utf8(Seq::<char>::empty()) =~= Seq::<u8>::empty());
        }
        return Some(String::new());
    }
    if buf[0] != 10 {
        return None;
    }
    proof {
        assert(buf@.skip(1) =~= buf@.drop_first());
    }
    match read_varint(buf, 1) {
        Option::None => None,
        Option::Some((len, q)) => {
            let remaining = buf.len() - q;
            if len != remaining as u64 {
                return None;
            }
            let mut bytes: Vec<u8> = Vec::new();
            let mut i: usize = q;
            while i < buf.len()
                invariant
                    q <= i <= buf.len(),
                    bytes@ == buf@.subrange(q as int, i as int),
                decreases buf.len() - i,
            {
                bytes.push(buf[i]);
                proof {
                    assert(bytes@ =~= buf@.subrange(q as int, i as int + 1));
                }
                i = i + 1;
            }
            proof {
                assert(bytes@ =~= buf@.skip(q as int));
            }
            match bytes_to_string(bytes) {
                Option::Some(s) => {
                    proof {
                        vstd::utf8::encode_utf8_decode_utf8(s@);
                    }
                    Some(s)
                },
                Option::None => None,
            }
        },
    }
}

/// One length-delimited field of the wire form: nothing when the
/// payload is empty, else the tag, the payload's length and the payload.
pub open spec fn spec_ld_field(tag: u8, payload: Seq<u8>) -> Seq<u8> {
    if payload.len() == 0 {
        Seq::empty()
    } else {
        seq![tag] + spec_varint(payload.len() as u64) + payload
    }
}

/// Reads one optional length-delimited field from the front of `s`: the
/// payload and what follows, with an absent field read as an empty payload.
pub open spec fn spec_take_field(s: Seq<u8>, tag: u8) -> Option<(Seq<u8>, Seq<u8>)> {
    if s.len() == 0 || s[0] != tag {
        Some((Seq::empty(), s))
    } else {
        match spec_read_varint(s.drop_first()) {
            None => None,
            Some((len, rest)) => {
                if rest.len() >= len {
                    Some((rest.take(len as int), rest.skip(len as int)))
                } else {
                    None
                }
            },
        }
    }
}

/// Appends one length-delimited field to `out`: nothing when the payload is
/// empty.
pub fn write_ld_field(out: &mut Vec<u8>, tag: u8, payload: &Vec<u8>)
    ensures
        final(out)@ == old(out)@ + spec_ld_field(tag, payload@),
{
    if payload.len() == 0 {
        proof {
            assert(out@ =~= old(out)@ + spec_ld_field(tag, payload@));
        }
        return ;
    }
    out.push(tag);
    write_varint(out, payload.len() as u64);
    let mut copied = clone_bytes(payload);
    out.append(&mut copied);
    proof {
        assert(out@ =~= old(out)@ + spec_ld_field(tag, payload@));
    }
}

/// Reads one optional length-delimited field of `buf` starting at `p`: the
/// payload and the position just past it.
pub fn take_field(buf: &Vec<u8>, p: usize, tag: u8) -> (r: Option<(Vec<u8>, usize)>)
    requires
        p <= buf.len(),
    ensures
        match r {
            Option::None => spec_take_field(buf@.skip(p as int), tag) is None,
            Option::Some((payload, q)) => {
                &&& p <= q <= buf.len()
                &&& spec_take_field(buf@.skip(p as int), tag) == Some(
                    (payload@, buf@.skip(q as int)),
                )
            },
        },
{
    if p == buf.len() || buf[p] != tag {
        let empty_payload: Vec<u8> = Vec::new();
        proof {
            if p < buf.len() {
                assert(buf@.skip(p as int)[0] == buf@[p as int]);
            }
            assert(empty_payload@ =~= Seq::<u8>::empty());
        }
        return Some((empty_payload, p));
    }
    proof {
        assert(buf@.skip(p as int)[0] == tag);
        assert(buf@.skip(p as int).drop_first() =~= buf@.skip(p as int + 1));
    }
    match read_varint(buf, p + 1) {
        Option::None => None,
        Option::Some((len, q)) => {
            let remaining = buf.len() - q;
            if len > remaining as u64 {
                proof {
                    assert(buf@.skip(q as int).len() == remaining);
                }
                return None;
            }
            let len_usize = len as usize;
            let mut payload: Vec<u8> = Vec::new();
            let mut i: usize = q;
            while i < q + len_usize
                invariant
                    q <= i <= q + len_usize,
                    q + len_usize <= buf.len(),
                    payload@ == buf@.subrange(q as int, i as int),
                decreases q + len_usize - i,
            {
                payload.push(buf[i]);
                proof {
                    assert(payload@ =~= buf@.subrange(q as int, i as int + 1));
                }
                i = i + 1;
            }
            proof {
                assert(buf@.skip(q as int).len() == remaining);
                assert(payload@ =~= buf@.skip(q as int).take(len as int));
                assert(buf@.skip(q as int + len_usize as int) =~= buf@.skip(q as int).skip(
                    len as int,
                ));
            }
            Some((payload, q + len_usize))
        },
    }
}

/// A character sequence encodes to no bytes exactly when it has no
/// characters.
pub(crate) proof fn lemma_encode_utf8_empty(s: Seq<char>)
    ensures
        (vstd::utf8::encode_utf8(s).len() == 0) <==> (s.len() == 0),
{
    if s.len() > 0 {
        assert(vstd::utf8::encode_scalar(s[0] as u32).len() >= 1);
    }
}

/// Relies on `String::from_utf8` of the standard library: it succeeds
/// exactly on byte sequences that are valid UTF-8, and the returned string's
/// bytes are the input bytes.
#[verifier::external_body]
pub(crate) fn bytes_to_string(bytes: Vec<u8>) -> (r: Option<String>)
    ensures
        r is Some <==> vstd::utf8::valid_utf8(bytes@),
        r is Some ==> vstd::utf8::encode_utf8(r->0@) == bytes@,
{
    String::from_utf8(bytes).ok()
}

} // verus!
