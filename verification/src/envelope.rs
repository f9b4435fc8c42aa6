//! Framing the two envelopes as bytes: the response is written to, and the
//! batch read from, the coordinator's wire form. Each message is a sequence
//! of tagged fields in field order; a field holding its default value is
//! omitted, and an omitted field reads back as its default.

use vstd::prelude::*;

use crate::address::{Address, AddressView};
use crate::function_registry::InvokableFunction;
use crate::codec::{bytes_to_string, read_varint, spec_ld_field, spec_read_varint, spec_take_field,
    spec_varint, take_field, write_ld_field, write_varint};
use crate::request_reply::{EgressMessage, EgressMessageView, ExpirationSpec, ExpireMode,
    FromFunction, FromFunctionDelayedInvocation, FromFunctionDelayedInvocationView,
    FromFunctionInvocation, FromFunctionInvocationView, FromFunctionView,
    IncompleteInvocationContext, Invocation, InvocationResponse, InvocationView, MutationType,
    PersistedValue, PersistedValueMutation, PersistedValueMutationView, PersistedValueSpec,
    PersistedValueSpecView, PersistedValueView, ToFunction, ToFunctionView};
use crate::typed_value::{TypedValue, TypedValueView, clone_bytes};
use crate::views::seq_view;
use vstd::string::StrSliceExecFns;

verus! {

/// One varint field: nothing when the value is the default zero, else the
/// tag and the value.
pub open spec fn spec_varint_field(tag: u8, n: u64) -> Seq<u8> {
    if n == 0 {
        Seq::empty()
    } else {
        seq![tag] + spec_varint(n)
    }
}

/// One string field: nothing when the string is empty, else the tag, the
/// byte length and the UTF-8 bytes.
pub open spec fn spec_str_field(tag: u8, s: Seq<char>) -> Seq<u8> {
    spec_ld_field(tag, vstd::utf8::encode_utf8(s))
}

/// One element of a repeated field: the tag, the element's byte length and
/// its bytes — present even when the element's body is empty.
pub open spec fn spec_rep_field(tag: u8, body: Seq<u8>) -> Seq<u8> {
    seq![tag] + spec_varint(body.len() as u64) + body
}

/// A whole repeated field: its elements in order.
pub open spec fn spec_rep_fields(tag: u8, bodies: Seq<Seq<u8>>) -> Seq<u8>
    decreases bodies.len(),
{
    if bodies.len() == 0 {
        Seq::empty()
    } else {
        spec_rep_fields(tag, bodies.drop_last()) + spec_rep_field(tag, bodies.last())
    }
}

/// The wire form of an address: namespace, type and id, each omitted when
/// empty.
pub open spec fn spec_encode_address(a: AddressView) -> Seq<u8> {
    spec_str_field(10, a.function_type.namespace) + spec_str_field(18, a.function_type.name)
        + spec_str_field(26, a.id)
}

/// The wire form of a typed payload: the type name, the presence flag and
/// the payload bytes, each omitted when default.
pub open spec fn spec_encode_typed_value(v: TypedValueView) -> Seq<u8> {
    spec_str_field(10, v.typename) + spec_varint_field(
        16,
        if v.has_value {
            1u64
        } else {
            0u64
        },
    ) + spec_ld_field(26, v.value)
}

/// The wire form of one outgoing message: the target and the argument.
pub open spec fn spec_encode_from_invocation(m: FromFunctionInvocationView) -> Seq<u8> {
    spec_ld_field(10, spec_encode_address(m.target)) + spec_ld_field(
        18,
        spec_encode_typed_value(m.argument),
    )
}

/// The wire form of one delayed entry: the target, delay and argument where
/// present, then the cancellation flag and token.
pub open spec fn spec_encode_delayed(d: FromFunctionDelayedInvocationView) -> Seq<u8> {
    (match d.target {
        Some(a) => spec_ld_field(10, spec_encode_address(a)),
        None => Seq::empty(),
    }) + spec_varint_field(16, d.delay_in_ms) + (match d.argument {
        Some(v) => spec_ld_field(26, spec_encode_typed_value(v)),
        None => Seq::empty(),
    }) + spec_varint_field(
        80,
        if d.is_cancellation_request {
            1u64
        } else {
            0u64
        },
    ) + spec_str_field(90, d.cancellation_token)
}

/// The wire form of one egress record: the egress identity and the argument.
pub open spec fn spec_encode_egress(e: EgressMessageView) -> Seq<u8> {
    spec_str_field(10, e.egress_namespace) + spec_str_field(18, e.egress_type) + spec_ld_field(
        26,
        spec_encode_typed_value(e.argument),
    )
}

/// The wire form of one state mutation: the kind — omitted for a deletion,
/// the wire default — the cell name, and the new payload where present.
pub open spec fn spec_encode_mutation(m: PersistedValueMutationView) -> Seq<u8> {
    spec_varint_field(
        8,
        match m.mutation_type {
            MutationType::Delete => 0u64,
            MutationType::Modify => 1u64,
        },
    ) + spec_str_field(18, m.state_name) + (match m.state_value {
        Some(v) => spec_ld_field(26, spec_encode_typed_value(v)),
        None => Seq::empty(),
    })
}

/// The wire form of an expiration policy: the mode and the millisecond
/// count, each omitted when default.
pub open spec fn spec_encode_expiration_spec(e: ExpirationSpec) -> Seq<u8> {
    spec_varint_field(
        8,
        match e.mode {
            ExpireMode::NoExpiration => 0u64,
            ExpireMode::ExpireAfterInvoke => 1u64,
            ExpireMode::ExpireAfterWrite => 2u64,
        },
    ) + spec_varint_field(16, e.expire_after_millis)
}

/// The wire form of one declared-but-missing cell: its name, expiration
/// policy and type name.
pub open spec fn spec_encode_missing_value(p: PersistedValueSpecView) -> Seq<u8> {
    spec_str_field(10, p.state_name) + spec_ld_field(
        18,
        spec_encode_expiration_spec(p.expiration_spec),
    ) + spec_str_field(26, p.type_typename)
}

/// The bodies of a sequence of outgoing messages.
pub open spec fn spec_invocation_bodies(ms: Seq<FromFunctionInvocationView>) -> Seq<Seq<u8>> {
    Seq::new(ms.len(), |i: int| spec_encode_from_invocation(ms[i]))
}

/// The bodies of a sequence of delayed entries.
pub open spec fn spec_delayed_bodies(ds: Seq<FromFunctionDelayedInvocationView>) -> Seq<Seq<u8>> {
    Seq::new(ds.len(), |i: int| spec_encode_delayed(ds[i]))
}

/// The bodies of a sequence of egress records.
pub open spec fn spec_egress_bodies(es: Seq<EgressMessageView>) -> Seq<Seq<u8>> {
    Seq::new(es.len(), |i: int| spec_encode_egress(es[i]))
}

/// The bodies of a sequence of state mutations.
pub open spec fn spec_mutation_bodies(ms: Seq<PersistedValueMutationView>) -> Seq<Seq<u8>> {
    Seq::new(ms.len(), |i: int| spec_encode_mutation(ms[i]))
}

/// The bodies of a sequence of declared-but-missing cells.
pub open spec fn spec_missing_value_bodies(ps: Seq<PersistedValueSpecView>) -> Seq<Seq<u8>> {
    Seq::new(ps.len(), |i: int| spec_encode_missing_value(ps[i]))
}

/// The wire form of the reply to one batch: one of the two response shapes,
/// as a single message-typed entry of the envelope.
pub open spec fn spec_encode_from_function(f: FromFunctionView) -> Seq<u8> {
    match f {
        FromFunctionView::InvocationResponse(r) => {
            let body = spec_rep_fields(10, spec_invocation_bodies(r.outgoing_messages))
                + spec_rep_fields(18, spec_delayed_bodies(r.delayed_invocations))
                + spec_rep_fields(26, spec_egress_bodies(r.outgoing_egresses)) + spec_rep_fields(
                34,
                spec_mutation_bodies(r.state_mutations),
            );
            seq![0xA2u8, 0x06u8] + spec_varint(body.len() as u64) + body
        },
        FromFunctionView::IncompleteInvocationContext(c) => {
            let body = spec_rep_fields(10, spec_missing_value_bodies(c.missing_values));
            seq![0xAAu8, 0x06u8] + spec_varint(body.len() as u64) + body
        },
    }
}

/// Appends one varint field to `out`: nothing when the value is zero.
fn write_varint_field(out: &mut Vec<u8>, tag: u8, n: u64)
    ensures
        final(out)@ == old(out)@ + spec_varint_field(tag, n),
{
    if n != 0 {
        out.push(tag);
        write_varint(out, n);
    }
    proof {
        assert(out@ =~= old(out)@ + spec_varint_field(tag, n));
    }
}

/// Appends one string field to `out`: nothing when the string is empty.
fn write_str_field(out: &mut Vec<u8>, tag: u8, s: &str)
    ensures
        final(out)@ == old(out)@ + spec_str_field(tag, s@),
{
    let bytes = s.as_bytes_vec();
    write_ld_field(out, tag, &bytes);
}

/// Appends one element of a repeated field to `out`: the tag, the length
/// and the body, even when the body is empty.
fn write_rep_field(out: &mut Vec<u8>, tag: u8, body: &Vec<u8>)
    ensures
        final(out)@ == old(out)@ + spec_rep_field(tag, body@),
{
    out.push(tag);
    write_varint(out, body.len() as u64);
    let mut copied = clone_bytes(body);
    out.append(&mut copied);
    proof {
        assert(out@ =~= old(out)@ + spec_rep_field(tag, body@));
    }
}

/// Encodes an address to its wire form.
fn encode_address(a: &Address) -> (out: Vec<u8>)
    ensures
        out@ == spec_encode_address(a@),
{
    let mut out: Vec<u8> = Vec::new();
    write_str_field(&mut out, 10, a.function_type.get_namespace().as_str());
    write_str_field(&mut out, 18, a.function_type.get_name().as_str());
    write_str_field(&mut out, 26, a.id.as_str());
    proof {
        assert(out@ =~= spec_encode_address(a@));
    }
    out
}

/// Encodes a typed payload to its wire form.
fn encode_typed_value(v: &TypedValue) -> (out: Vec<u8>)
    ensures
        out@ == spec_encode_typed_value(v@),
{
    let mut out: Vec<u8> = Vec::new();
    write_str_field(&mut out, 10, v.typename.as_str());
    write_varint_field(&mut out, 16, if v.has_value { 1 } else { 0 });
    write_ld_field(&mut out, 26, &v.value);
    proof {
        assert(out@ =~= spec_encode_typed_value(v@));
    }
    out
}

/// Encodes one outgoing message to its wire form.
fn encode_from_invocation(m: &FromFunctionInvocation) -> (out: Vec<u8>)
    ensures
        out@ == spec_encode_from_invocation(m@),
{
    let mut out: Vec<u8> = Vec::new();
    let target = encode_address(&m.target);
    write_ld_field(&mut out, 10, &target);
    let argument = encode_typed_value(&m.argument);
    write_ld_field(&mut out, 18, &argument);
    proof {
        assert(out@ =~= spec_encode_from_invocation(m@));
    }
    out
}

/// Encodes one delayed entry to its wire form.
fn encode_delayed(d: &FromFunctionDelayedInvocation) -> (out: Vec<u8>)
    ensures
        out@ == spec_encode_delayed(d@),
{
    let mut out: Vec<u8> = Vec::new();
    match &d.target {
        Option::Some(a) => {
            let target = encode_address(a);
            write_ld_field(&mut out, 10, &target);
        },
        Option::None => {},
    }
    write_varint_field(&mut out, 16, d.delay_in_ms);
    match &d.argument {
        Option::Some(v) => {
            let argument = encode_typed_value(v);
            write_ld_field(&mut out, 26, &argument);
        },
        Option::None => {},
    }
    write_varint_field(&mut out, 80, if d.is_cancellation_request { 1 } else { 0 });
    write_str_field(&mut out, 90, d.cancellation_token.as_str());
    proof {
        assert(out@ =~= spec_encode_delayed(d@));
    }
    out
}

/// Encodes one egress record to its wire form.
fn encode_egress(e: &EgressMessage) -> (out: Vec<u8>)
    ensures
        out@ == spec_encode_egress(e@),
{
    let mut out: Vec<u8> = Vec::new();
    write_str_field(&mut out, 10, e.egress_namespace.as_str());
    write_str_field(&mut out, 18, e.egress_type.as_str());
    let argument = encode_typed_value(&e.argument);
    write_ld_field(&mut out, 26, &argument);
    proof {
        assert(out@ =~= spec_encode_egress(e@));
    }
    out
}

/// Encodes one state mutation to its wire form.
fn encode_mutation(m: &PersistedValueMutation) -> (out: Vec<u8>)
    ensures
        out@ == spec_encode_mutation(m@),
{
    let mut out: Vec<u8> = Vec::new();
    write_varint_field(
        &mut out,
        8,
        match m.mutation_type {
            MutationType::Delete => 0,
            MutationType::Modify => 1,
        },
    );
    write_str_field(&mut out, 18, m.state_name.as_str());
    match &m.state_value {
        Option::Some(v) => {
            let value = encode_typed_value(v);
            write_ld_field(&mut out, 26, &value);
        },
        Option::None => {},
    }
    proof {
        assert(out@ =~= spec_encode_mutation(m@));
    }
    out
}

/// Encodes one declared-but-missing cell to its wire form.
fn encode_missing_value(p: &PersistedValueSpec) -> (out: Vec<u8>)
    ensures
        out@ == spec_encode_missing_value(p@),
{
    let mut out: Vec<u8> = Vec::new();
    write_str_field(&mut out, 10, p.state_name.as_str());
    let mut expiration: Vec<u8> = Vec::new();
    write_varint_field(
        &mut expiration,
        8,
        match p.expiration_spec.mode {
            ExpireMode::NoExpiration => 0,
            ExpireMode::ExpireAfterInvoke => 1,
            ExpireMode::ExpireAfterWrite => 2,
        },
    );
    write_varint_field(&mut expiration, 16, p.expiration_spec.expire_after_millis);
    proof {
        assert(expiration@ =~= spec_encode_expiration_spec(p.expiration_spec));
    }
    write_ld_field(&mut out, 18, &expiration);
    write_str_field(&mut out, 26, p.type_typename.as_str());
    proof {
        assert(out@ =~= spec_encode_missing_value(p@));
    }
    out
}

/// Encodes the reply to one batch to its wire form.
pub fn encode_from_function(f: &FromFunction) -> (out: Vec<u8>)
    ensures
        out@ == spec_encode_from_function(f@),
{
    match f {
        FromFunction::InvocationResponse(r) => {
            let mut body: Vec<u8> = Vec::new();
            encode_outgoing_messages(&mut body, &r.outgoing_messages);
            encode_delayed_invocations(&mut body, &r.delayed_invocations);
            encode_outgoing_egresses(&mut body, &r.outgoing_egresses);
            encode_state_mutations(&mut body, &r.state_mutations);
            let mut out: Vec<u8> = Vec::new();
            out.push(0xA2);
            out.push(0x06);
            write_varint(&mut out, body.len() as u64);
            out.append(&mut body);
            proof {
                assert(out@ =~= spec_encode_from_function(f@));
            }
            out
        },
        FromFunction::IncompleteInvocationContext(c) => {
            let mut body: Vec<u8> = Vec::new();
            encode_missing_values(&mut body, &c.missing_values);
            let mut out: Vec<u8> = Vec::new();
            out.push(0xAA);
            out.push(0x06);
            write_varint(&mut out, body.len() as u64);
            out.append(&mut body);
            proof {
                assert(out@ =~= spec_encode_from_function(f@));
            }
            out
        },
    }
}

/// Appends the outgoing-messages field to `out`, in order.
fn encode_outgoing_messages(out: &mut Vec<u8>, ms: &Vec<FromFunctionInvocation>)
    ensures
        final(out)@ == old(out)@ + spec_rep_fields(10, spec_invocation_bodies(seq_view(ms@))),
{
    let n = ms.len();
    let mut i: usize = 0;
    proof {
        assert(out@ =~= old(out)@ + spec_rep_fields(
            10,
            spec_invocation_bodies(seq_view(ms@)).take(0),
        ));
    }
    while i < n
        invariant
            n == ms.len(),
            i <= n,
            out@ == old(out)@ + spec_rep_fields(
                10,
                spec_invocation_bodies(seq_view(ms@)).take(i as int),
            ),
        decreases n - i,
    {
        let body = encode_from_invocation(&ms[i]);
        write_rep_field(out, 10, &body);
        proof {
            let bodies = spec_invocation_bodies(seq_view(ms@));
            assert(bodies.take(i as int + 1).drop_last() =~= bodies.take(i as int));
            assert(bodies.take(i as int + 1).last() == bodies[i as int]);
            assert(out@ =~= old(out)@ + spec_rep_fields(10, bodies.take(i as int + 1)));
        }
        i = i + 1;
    }
    proof {
        let bodies = spec_invocation_bodies(seq_view(ms@));
        assert(bodies.take(n as int) =~= bodies);
    }
}

/// Appends the delayed-invocations field to `out`, in order.
fn encode_delayed_invocations(out: &mut Vec<u8>, ds: &Vec<FromFunctionDelayedInvocation>)
    ensures
        final(out)@ == old(out)@ + spec_rep_fields(18, spec_delayed_bodies(seq_view(ds@))),
{
    let n = ds.len();
    let mut i: usize = 0;
    proof {
        assert(out@ =~= old(out)@ + spec_rep_fields(18, spec_delayed_bodies(seq_view(ds@)).take(0)));
    }
    while i < n
        invariant
            n == ds.len(),
            i <= n,
            out@ == old(out)@ + spec_rep_fields(
                18,
                spec_delayed_bodies(seq_view(ds@)).take(i as int),
            ),
        decreases n - i,
    {
        let body = encode_delayed(&ds[i]);
        write_rep_field(out, 18, &body);
        proof {
            let bodies = spec_delayed_bodies(seq_view(ds@));
            assert(bodies.take(i as int + 1).drop_last() =~= bodies.take(i as int));
            assert(bodies.take(i as int + 1).last() == bodies[i as int]);
            assert(out@ =~= old(out)@ + spec_rep_fields(18, bodies.take(i as int + 1)));
        }
        i = i + 1;
    }
    proof {
        let bodies = spec_delayed_bodies(seq_view(ds@));
        assert(bodies.take(n as int) =~= bodies);
    }
}

/// Appends the outgoing-egresses field to `out`, in order.
fn encode_outgoing_egresses(out: &mut Vec<u8>, es: &Vec<EgressMessage>)
    ensures
        final(out)@ == old(out)@ + spec_rep_fields(26, spec_egress_bodies(seq_view(es@))),
{
    let n = es.len();
    let mut i: usize = 0;
    proof {
        assert(out@ =~= old(out)@ + spec_rep_fields(26, spec_egress_bodies(seq_view(es@)).take(0)));
    }
    while i < n
        invariant
            n == es.len(),
            i <= n,
            out@ == old(out)@ + spec_rep_fields(
                26,
                spec_egress_bodies(seq_view(es@)).take(i as int),
            ),
        decreases n - i,
    {
        let body = encode_egress(&es[i]);
        write_rep_field(out, 26, &body);
        proof {
            let bodies = spec_egress_bodies(seq_view(es@));
            assert(bodies.take(i as int + 1).drop_last() =~= bodies.take(i as int));
            assert(bodies.take(i as int + 1).last() == bodies[i as int]);
            assert(out@ =~= old(out)@ + spec_rep_fields(26, bodies.take(i as int + 1)));
        }
        i = i + 1;
    }
    proof {
        let bodies = spec_egress_bodies(seq_view(es@));
        assert(bodies.take(n as int) =~= bodies);
    }
}

/// Appends the state-mutations field to `out`, in order.
fn encode_state_mutations(out: &mut Vec<u8>, ms: &Vec<PersistedValueMutation>)
    ensures
        final(out)@ == old(out)@ + spec_rep_fields(34, spec_mutation_bodies(seq_view(ms@))),
{
    let n = ms.len();
    let mut i: usize = 0;
    proof {
        assert(out@ =~= old(out)@ + spec_rep_fields(
            34,
            spec_mutation_bodies(seq_view(ms@)).take(0),
        ));
    }
    while i < n
        invariant
            n == ms.len(),
            i <= n,
            out@ == old(out)@ + spec_rep_fields(
                34,
                spec_mutation_bodies(seq_view(ms@)).take(i as int),
            ),
        decreases n - i,
    {
        let body = encode_mutation(&ms[i]);
        write_rep_field(out, 34, &body);
        proof {
            let bodies = spec_mutation_bodies(seq_view(ms@));
            assert(bodies.take(i as int + 1).drop_last() =~= bodies.take(i as int));
            assert(bodies.take(i as int + 1).last() == bodies[i as int]);
            assert(out@ =~= old(out)@ + spec_rep_fields(34, bodies.take(i as int + 1)));
        }
        i = i + 1;
    }
    proof {
        let bodies = spec_mutation_bodies(seq_view(ms@));
        assert(bodies.take(n as int) =~= bodies);
    }
}

/// Appends the missing-values field to `out`, in order.
fn encode_missing_values(out: &mut Vec<u8>, ps: &Vec<PersistedValueSpec>)
    ensures
        final(out)@ == old(out)@ + spec_rep_fields(10, spec_missing_value_bodies(seq_view(ps@))),
{
    let n = ps.len();
    let mut i: usize = 0;
    proof {
        assert(out@ =~= old(out)@ + spec_rep_fields(
            10,
            spec_missing_value_bodies(seq_view(ps@)).take(0),
        ));
    }
    while i < n
        invariant
            n == ps.len(),
            i <= n,
            out@ == old(out)@ + spec_rep_fields(
                10,
                spec_missing_value_bodies(seq_view(ps@)).take(i as int),
            ),
        decreases n - i,
    {
        let body = encode_missing_value(&ps[i]);
        write_rep_field(out, 10, &body);
        proof {
            let bodies = spec_missing_value_bodies(seq_view(ps@));
            assert(bodies.take(i as int + 1).drop_last() =~= bodies.take(i as int));
            assert(bodies.take(i as int + 1).last() == bodies[i as int]);
            assert(out@ =~= old(out)@ + spec_rep_fields(10, bodies.take(i as int + 1)));
        }
        i = i + 1;
    }
    proof {
        let bodies = spec_missing_value_bodies(seq_view(ps@));
        assert(bodies.take(n as int) =~= bodies);
    }
}

/// Reads one length-delimited payload from the front of `s`: the varint
/// length, then that many bytes.
pub open spec fn spec_read_ld(s: Seq<u8>) -> Option<(Seq<u8>, Seq<u8>)> {
    match spec_read_varint(s) {
        None => None,
        Some((len, rest)) => {
            if rest.len() >= len {
                Some((rest.take(len as int), rest.skip(len as int)))
            } else {
                None
            }
        },
    }
}

/// A varint read consumes at least one byte.
proof fn lemma_read_varint_consumes(s: Seq<u8>)
    ensures
        spec_read_varint(s) is Some ==> (spec_read_varint(s)->0).1.len() < s.len(),
    decreases s.len(),
{
    if s.len() != 0 && s[0] >= 128 {
        lemma_read_varint_consumes(s.drop_first());
    }
}

/// Reads one optional varint field from the front of `s`: an absent field
/// reads as zero.
pub open spec fn spec_take_varint_field(s: Seq<u8>, tag: u8) -> Option<(u64, Seq<u8>)> {
    if s.len() == 0 || s[0] != tag {
        Some((0, s))
    } else {
        spec_read_varint(s.drop_first())
    }
}

/// Reads the elements of one repeated field from the front of `s`: the
/// payloads of the consecutive entries carrying the tag, in order.
pub open spec fn spec_take_repeated(s: Seq<u8>, tag: u8) -> Option<(Seq<Seq<u8>>, Seq<u8>)>
    decreases s.len(),
    via spec_take_repeated_decreases
{
    if s.len() == 0 || s[0] != tag {
        Some((Seq::empty(), s))
    } else {
        match spec_read_ld(s.drop_first()) {
            None => None,
            Some((payload, rest)) => {
                match spec_take_repeated(rest, tag) {
                    None => None,
                    Some((tail, past)) => Some((seq![payload] + tail, past)),
                }
            },
        }
    }
}

#[via_fn]
proof fn spec_take_repeated_decreases(s: Seq<u8>, tag: u8) {
    if s.len() != 0 && s[0] == tag {
        lemma_read_varint_consumes(s.drop_first());
    }
}

/// Reads the wire form of an address: the three strings, in field order.
pub open spec fn spec_decode_address(s: Seq<u8>) -> Option<AddressView> {
    match spec_take_field(s, 10) {
        None => None,
        Some((namespace_bytes, s1)) => match spec_take_field(s1, 18) {
            None => None,
            Some((name_bytes, s2)) => match spec_take_field(s2, 26) {
                None => None,
                Some((id_bytes, s3)) => {
                    if s3.len() == 0 && vstd::utf8::valid_utf8(namespace_bytes)
                        && vstd::utf8::valid_utf8(name_bytes) && vstd::utf8::valid_utf8(id_bytes) {
                        Some(
                            AddressView {
                                function_type: crate::function_type::FunctionTypeView {
                                    namespace: vstd::utf8::decode_utf8(namespace_bytes),
                                    name: vstd::utf8::decode_utf8(name_bytes),
                                },
                                id: vstd::utf8::decode_utf8(id_bytes),
                            },
                        )
                    } else {
                        None
                    }
                },
            },
        },
    }
}

/// Reads the wire form of a typed payload: the type name, the presence flag
/// and the payload bytes, in field order.
pub open spec fn spec_decode_typed_value(s: Seq<u8>) -> Option<TypedValueView> {
    match spec_take_field(s, 10) {
        None => None,
        Some((typename_bytes, s1)) => match spec_take_varint_field(s1, 16) {
            None => None,
            Some((has_value, s2)) => match spec_take_field(s2, 26) {
                None => None,
                Some((value, s3)) => {
                    if s3.len() == 0 && vstd::utf8::valid_utf8(typename_bytes) {
                        Some(
                            TypedValueView {
                                typename: vstd::utf8::decode_utf8(typename_bytes),
                                has_value: has_value != 0,
                                value,
                            },
                        )
                    } else {
                        None
                    }
                },
            },
        },
    }
}

/// Reads the wire form of one snapshot cell: the cell name and the stored
/// payload.
pub open spec fn spec_decode_persisted_value(s: Seq<u8>) -> Option<PersistedValueView> {
    match spec_take_field(s, 10) {
        None => None,
        Some((name_bytes, s1)) => match spec_take_field(s1, 18) {
            None => None,
            Some((value_body, s2)) => {
                if s2.len() == 0 && vstd::utf8::valid_utf8(name_bytes) {
                    match spec_decode_typed_value(value_body) {
                        None => None,
                        Some(tv) => Some(
                            PersistedValueView {
                                state_name: vstd::utf8::decode_utf8(name_bytes),
                                state_value: tv,
                            },
                        ),
                    }
                } else {
                    None
                }
            },
        },
    }
}

/// Reads the wire form of one queued invocation: the caller and the
/// argument.
pub open spec fn spec_decode_invocation(s: Seq<u8>) -> Option<InvocationView> {
    match spec_take_field(s, 10) {
        None => None,
        Some((caller_body, s1)) => match spec_take_field(s1, 18) {
            None => None,
            Some((argument_body, s2)) => {
                if s2.len() == 0 {
                    match (spec_decode_address(caller_body), spec_decode_typed_value(
                        argument_body,
                    )) {
                        (Some(caller), Some(argument)) => Some(
                            InvocationView { caller, argument },
                        ),
                        _ => None,
                    }
                } else {
                    None
                }
            },
        },
    }
}

/// Reads a list of snapshot cells from the payloads of a repeated field.
pub open spec fn spec_decode_persisted_values(bodies: Seq<Seq<u8>>) -> Option<
    Seq<PersistedValueView>,
>
    decreases bodies.len(),
{
    if bodies.len() == 0 {
        Some(Seq::empty())
    } else {
        match spec_decode_persisted_values(bodies.drop_last()) {
            None => None,
            Some(front) => match spec_decode_persisted_value(bodies.last()) {
                None => None,
                Some(v) => Some(front.push(v)),
            },
        }
    }
}

/// Reads a list of queued invocations from the payloads of a repeated field.
pub open spec fn spec_decode_invocations(bodies: Seq<Seq<u8>>) -> Option<Seq<InvocationView>>
    decreases bodies.len(),
{
    if bodies.len() == 0 {
        Some(Seq::empty())
    } else {
        match spec_decode_invocations(bodies.drop_last()) {
            None => None,
            Some(front) => match spec_decode_invocation(bodies.last()) {
                None => None,
                Some(v) => Some(front.push(v)),
            },
        }
    }
}

/// Reads the wire form of an invocation batch: the target, the snapshot
/// cells and the queued invocations, in field order.
pub open spec fn spec_decode_batch(s: Seq<u8>) -> Option<ToFunctionView> {
    match spec_take_field(s, 10) {
        None => None,
        Some((target_body, s1)) => match spec_take_repeated(s1, 18) {
            None => None,
            Some((state_bodies, s2)) => match spec_take_repeated(s2, 26) {
                None => None,
                Some((invocation_bodies, s3)) => {
                    if s3.len() == 0 {
                        match (
                            spec_decode_address(target_body),
                            spec_decode_persisted_values(state_bodies),
                            spec_decode_invocations(invocation_bodies),
                        ) {
                            (Some(target), Some(state), Some(invocations)) => Some(
                                ToFunctionView { target, state, invocations },
                            ),
                            _ => None,
                        }
                    } else {
                        None
                    }
                },
            },
        },
    }
}

/// Reads the wire form of one batch envelope: a single invocation-batch
/// entry filling the whole buffer.
pub open spec fn spec_decode_to_function(s: Seq<u8>) -> Option<ToFunctionView> {
    match spec_read_varint(s) {
        None => None,
        Some((tag, r1)) => {
            if tag != 802 {
                None
            } else {
                match spec_read_varint(r1) {
                    None => None,
                    Some((len, r2)) => {
                        if r2.len() == len {
                            spec_decode_batch(r2)
                        } else {
                            None
                        }
                    },
                }
            }
        },
    }
}

/// Reads one optional varint field of `buf` starting at `p`: the value —
/// zero when the field is absent — and the position just past it.
fn take_varint_field(buf: &Vec<u8>, p: usize, tag: u8) -> (r: Option<(u64, usize)>)
    requires
        p <= buf.len(),
    ensures
        match r {
            Option::None => spec_take_varint_field(buf@.skip(p as int), tag) is None,
            Option::Some((v, q)) => {
                &&& p <= q <= buf.len()
                &&& spec_take_varint_field(buf@.skip(p as int), tag) == Some(
                    (v, buf@.skip(q as int)),
                )
            },
        },
{
    if p == buf.len() || buf[p] != tag {
        proof {
            if p < buf.len() {
                assert(buf@.skip(p as int)[0] == buf@[p as int]);
            }
        }
        return Some((0, p));
    }
    proof {
        assert(buf@.skip(p as int)[0] == tag);
        assert(buf@.skip(p as int).drop_first() =~= buf@.skip(p as int + 1));
    }
    read_varint(buf, p + 1)
}

/// Reads the consecutive entries of one repeated field of `buf` starting at
/// `p`: their payloads in order, and the position just past the last one.
fn take_repeated(buf: &Vec<u8>, p: usize, tag: u8) -> (r: Option<(Vec<Vec<u8>>, usize)>)
    requires
        p <= buf.len(),
    ensures
        match r {
            Option::None => spec_take_repeated(buf@.skip(p as int), tag) is None,
            Option::Some((payloads, q)) => {
                &&& p <= q <= buf.len()
                &&& spec_take_repeated(buf@.skip(p as int), tag) == Some(
                    (seq_view(payloads@), buf@.skip(q as int)),
                )
            },
        },
    decreases buf.len() - p,
{
    if p == buf.len() || buf[p] != tag {
        let empty_payloads: Vec<Vec<u8>> = Vec::new();
        proof {
            if p < buf.len() {
                assert(buf@.skip(p as int)[0] == buf@[p as int]);
            }
            assert(seq_view(empty_payloads@) =~= Seq::<Seq<u8>>::empty());
        }
        return Some((empty_payloads, p));
    }
    proof {
        assert(buf@.skip(p as int)[0] == tag);
        assert(buf@.skip(p as int).drop_first() =~= buf@.skip(p as int + 1));
    }
    let (len, q) = match read_varint(buf, p + 1) {
        Option::None => {
            return None;
        },
        Option::Some(x) => x,
    };
    let remaining = buf.len() - q;
    if len > remaining as u64 {
        proof {
            assert(buf@.skip(q as int).len() == remaining);
        }
        return None;
    }
    proof {
        assert(buf@.skip(q as int).len() == remaining);
    }
    let len_usize = len as usize;
    let mut payload: Vec<u8> = Vec::new();
    let mut i: usize = q;
    while i < q + len_usize
        invariant
            q <= i <= q + len_usize,
            q + len_usize <= buf.len(),
            payload@ == buf@.subrange(q as int, i as int),
        decreases q + len_usize - i,
    {
        payload.push(buf[i]);
        proof {
            assert(payload@ =~= buf@.subrange(q as int, i as int + 1));
        }
        i = i + 1;
    }
    proof {
        assert(payload@ =~= buf@.skip(q as int).take(len as int));
        assert(buf@.skip(q as int + len_usize as int) =~= buf@.skip(q as int).skip(len as int));
    }
    match take_repeated(buf, q + len_usize, tag) {
        Option::None => None,
        Option::Some((mut tail, end)) => {
            let ghost tail_before = tail@;
            let ghost payload_view = payload@;
            tail.insert(0, payload);
            proof {
                assert(seq_view(tail@) =~= seq![payload_view] + seq_view(tail_before));
            }
            Some((tail, end))
        },
    }
}

/// Decodes an address from its wire form.
fn decode_address(buf: &Vec<u8>) -> (r: Option<Address>)
    ensures
        ({
            let d = spec_decode_address(buf@);
            &&& r is Some <==> d is Some
            &&& r is Some ==> r->0@ == d->0
        }),
{
    proof {
        assert(buf@.skip(0) =~= buf@);
    }
    let (namespace_bytes, p1) = match take_field(buf, 0, 10) {
        Option::None => {
            return None;
        },
        Option::Some(x) => x,
    };
    let (name_bytes, p2) = match take_field(buf, p1, 18) {
        Option::None => {
            return None;
        },
        Option::Some(x) => x,
    };
    let (id_bytes, p3) = match take_field(buf, p2, 26) {
        Option::None => {
            return None;
        },
        Option::Some(x) => x,
    };
    if p3 != buf.len() {
        proof {
            assert(buf@.skip(p3 as int).len() > 0);
        }
        return None;
    }
    proof {
        assert(buf@.skip(p3 as int).len() == 0);
    }
    let namespace = match bytes_to_string(namespace_bytes) {
        Option::None => {
            return None;
        },
        Option::Some(s) => s,
    };
    let name = match bytes_to_string(name_bytes) {
        Option::None => {
            return None;
        },
        Option::Some(s) => s,
    };
    let id = match bytes_to_string(id_bytes) {
        Option::None => {
            return None;
        },
        Option::Some(s) => s,
    };
    proof {
        vstd::utf8::encode_utf8_decode_utf8(namespace@);
        vstd::utf8::encode_utf8_decode_utf8(name@);
        vstd::utf8::encode_utf8_decode_utf8(id@);
    }
    Some(
        Address {
            function_type: crate::function_type::FunctionType::new(
                namespace.as_str(),
                name.as_str(),
            ),
            id,
        },
    )
}

/// Decodes a typed payload from its wire form.
fn decode_typed_value(buf: &Vec<u8>) -> (r: Option<TypedValue>)
    ensures
        ({
            let d = spec_decode_typed_value(buf@);
            &&& r is Some <==> d is Some
            &&& r is Some ==> r->0@ == d->0
        }),
{
    proof {
        assert(buf@.skip(0) =~= buf@);
    }
    let (typename_bytes, p1) = match take_field(buf, 0, 10) {
        Option::None => {
            return None;
        },
        Option::Some(x) => x,
    };
    let (has_value, p2) = match take_varint_field(buf, p1, 16) {
        Option::None => {
            return None;
        },
        Option::Some(x) => x,
    };
    let (value, p3) = match take_field(buf, p2, 26) {
        Option::None => {
            return None;
        },
        Option::Some(x) => x,
    };
    if p3 != buf.len() {
        proof {
            assert(buf@.skip(p3 as int).len() > 0);
        }
        return None;
    }
    proof {
        assert(buf@.skip(p3 as int).len() == 0);
    }
    let typename = match bytes_to_string(typename_bytes) {
        Option::None => {
            return None;
        },
        Option::Some(s) => s,
    };
    proof {
        vstd::utf8::encode_utf8_decode_utf8(typename@);
    }
    Some(TypedValue { typename, has_value: has_value != 0, value })
}

/// Decodes one snapshot cell from its wire form.
fn decode_persisted_value(buf: &Vec<u8>) -> (r: Option<PersistedValue>)
    ensures
        ({
            let d = spec_decode_persisted_value(buf@);
            &&& r is Some <==> d is Some
            &&& r is Some ==> r->0@ == d->0
        }),
{
    proof {
        assert(buf@.skip(0) =~= buf@);
    }
    let (name_bytes, p1) = match take_field(buf, 0, 10) {
        Option::None => {
            return None;
        },
        Option::Some(x) => x,
    };
    let (value_body, p2) = match take_field(buf, p1, 18) {
        Option::None => {
            return None;
        },
        Option::Some(x) => x,
    };
    if p2 != buf.len() {
        proof {
            assert(buf@.skip(p2 as int).len() > 0);
        }
        return None;
    }
    proof {
        assert(buf@.skip(p2 as int).len() == 0);
    }
    let state_name = match bytes_to_string(name_bytes) {
        Option::None => {
            return None;
        },
        Option::Some(s) => s,
    };
    let state_value = match decode_typed_value(&value_body) {
        Option::None => {
            return None;
        },
        Option::Some(v) => v,
    };
    proof {
        vstd::utf8::encode_utf8_decode_utf8(state_name@);
    }
    Some(PersistedValue { state_name, state_value })
}

/// Decodes one queued invocation from its wire form.
fn decode_invocation(buf: &Vec<u8>) -> (r: Option<Invocation>)
    ensures
        ({
            let d = spec_decode_invocation(buf@);
            &&& r is Some <==> d is Some
            &&& r is Some ==> r->0@ == d->0
        }),
{
    proof {
        assert(buf@.skip(0) =~= buf@);
    }
    let (caller_body, p1) = match take_field(buf, 0, 10) {
        Option::None => {
            return None;
        },
        Option::Some(x) => x,
    };
    let (argument_body, p2) = match take_field(buf, p1, 18) {
        Option::None => {
            return None;
        },
        Option::Some(x) => x,
    };
    if p2 != buf.len() {
        proof {
            assert(buf@.skip(p2 as int).len() > 0);
        }
        return None;
    }
    proof {
        assert(buf@.skip(p2 as int).len() == 0);
    }
    let caller = match decode_address(&caller_body) {
        Option::None => {
            return None;
        },
        Option::Some(a) => a,
    };
    let argument = match decode_typed_value(&argument_body) {
        Option::None => {
            return None;
        },
        Option::Some(v) => v,
    };
    Some(Invocation { caller, argument })
}

/// When one payload of a repeated field does not decode, neither does the
/// list.
proof fn lemma_decode_persisted_values_none(bodies: Seq<Seq<u8>>, j: int)
    requires
        0 <= j < bodies.len(),
        spec_decode_persisted_value(bodies[j]) is None,
    ensures
        spec_decode_persisted_values(bodies) is None,
    decreases bodies.len(),
{
    if j < bodies.len() - 1 {
        lemma_decode_persisted_values_none(bodies.drop_last(), j);
    }
}

/// When one payload of a repeated field does not decode, neither does the
/// list.
proof fn lemma_decode_invocations_none(bodies: Seq<Seq<u8>>, j: int)
    requires
        0 <= j < bodies.len(),
        spec_decode_invocation(bodies[j]) is None,
    ensures
        spec_decode_invocations(bodies) is None,
    decreases bodies.len(),
{
    if j < bodies.len() - 1 {
        lemma_decode_invocations_none(bodies.drop_last(), j);
    }
}

/// Decodes the snapshot cells of a batch from the payloads of its repeated
/// field.
fn decode_persisted_values(bodies: &Vec<Vec<u8>>) -> (r: Option<Vec<PersistedValue>>)
    ensures
        ({
            let d = spec_decode_persisted_values(seq_view(bodies@));
            &&& r is Some <==> d is Some
            &&& r is Some ==> seq_view(r->0@) == d->0
        }),
{
    let mut out: Vec<PersistedValue> = Vec::new();
    let n = bodies.len();
    let mut i: usize = 0;
    proof {
        assert(seq_view(bodies@).take(0) =~= Seq::<Seq<u8>>::empty());
        assert(seq_view(out@) =~= Seq::<PersistedValueView>::empty());
    }
    while i < n
        invariant
            n == bodies.len(),
            i <= n,
            spec_decode_persisted_values(seq_view(bodies@).take(i as int)) == Some(
                seq_view(out@),
            ),
        decreases n - i,
    {
        let v = match decode_persisted_value(&bodies[i]) {
            Option::None => {
                proof {
                    lemma_decode_persisted_values_none(seq_view(bodies@), i as int);
                }
                return None;
            },
            Option::Some(v) => v,
        };
        let ghost out_before = out@;
        out.push(v);
        proof {
            let all = seq_view(bodies@);
            assert(all.take(i as int + 1).drop_last() =~= all.take(i as int));
            assert(all.take(i as int + 1).last() == all[i as int]);
            assert(seq_view(out@) =~= seq_view(out_before).push(out@.last()@));
        }
        i = i + 1;
    }
    proof {
        assert(seq_view(bodies@).take(n as int) =~= seq_view(bodies@));
    }
    Some(out)
}

/// Decodes the queued invocations of a batch from the payloads of its
/// repeated field.
fn decode_invocations(bodies: &Vec<Vec<u8>>) -> (r: Option<Vec<Invocation>>)
    ensures
        ({
            let d = spec_decode_invocations(seq_view(bodies@));
            &&& r is Some <==> d is Some
            &&& r is Some ==> seq_view(r->0@) == d->0
        }),
{
    let mut out: Vec<Invocation> = Vec::new();
    let n = bodies.len();
    let mut i: usize = 0;
    proof {
        assert(seq_view(bodies@).take(0) =~= Seq::<Seq<u8>>::empty());
        assert(seq_view(out@) =~= Seq::<InvocationView>::empty());
    }
    while i < n
        invariant
            n == bodies.len(),
            i <= n,
            spec_decode_invocations(seq_view(bodies@).take(i as int)) == Some(seq_view(out@)),
        decreases n - i,
    {
        let v = match decode_invocation(&bodies[i]) {
            Option::None => {
                proof {
                    lemma_decode_invocations_none(seq_view(bodies@), i as int);
                }
                return None;
            },
            Option::Some(v) => v,
        };
        let ghost out_before = out@;
        out.push(v);
        proof {
            let all = seq_view(bodies@);
            assert(all.take(i as int + 1).drop_last() =~= all.take(i as int));
            assert(all.take(i as int + 1).last() == all[i as int]);
            assert(seq_view(out@) =~= seq_view(out_before).push(out@.last()@));
        }
        i = i + 1;
    }
    proof {
        assert(seq_view(bodies@).take(n as int) =~= seq_view(bodies@));
    }
    Some(out)
}

/// Decodes one batch envelope from its wire form: the batch's target, state
/// snapshot and queued invocations. Returns nothing when the bytes are not a
/// well-formed envelope.
pub fn decode_to_function(buf: &Vec<u8>) -> (r: Option<ToFunction>)
    ensures
        ({
            let d = spec_decode_to_function(buf@);
            &&& r is Some <==> d is Some
            &&& r is Some ==> r->0@ == d->0
        }),
{
    proof {
        assert(buf@.skip(0) =~= buf@);
    }
    let (tag, p1) = match read_varint(buf, 0) {
        Option::None => {
            return None;
        },
        Option::Some(x) => x,
    };
    if tag != 802 {
        return None;
    }
    let (len, p2) = match read_varint(buf, p1) {
        Option::None => {
            return None;
        },
        Option::Some(x) => x,
    };
    let remaining = buf.len() - p2;
    proof {
        assert(buf@.skip(p2 as int).len() == remaining);
    }
    if len != remaining as u64 {
        return None;
    }
    let (target_body, p3) = match take_field(buf, p2, 10) {
        Option::None => {
            return None;
        },
        Option::Some(x) => x,
    };
    let (state_bodies, p4) = match take_repeated(buf, p3, 18) {
        Option::None => {
            return None;
        },
        Option::Some(x) => x,
    };
    let (invocation_bodies, p5) = match take_repeated(buf, p4, 26) {
        Option::None => {
            return None;
        },
        Option::Some(x) => x,
    };
    if p5 != buf.len() {
        proof {
            assert(buf@.skip(p5 as int).len() > 0);
        }
        return None;
    }
    proof {
        assert(buf@.skip(p5 as int).len() == 0);
    }
    let target = match decode_address(&target_body) {
        Option::None => {
            return None;
        },
        Option::Some(a) => a,
    };
    let state = match decode_persisted_values(&state_bodies) {
        Option::None => {
            return None;
        },
        Option::Some(s) => s,
    };
    let invocations = match decode_invocations(&invocation_bodies) {
        Option::None => {
            return None;
        },
        Option::Some(s) => s,
    };
    Some(ToFunction { target, state, invocations })
}

/// What serving one request computes: nothing when the request bytes are
/// not a well-formed batch envelope — a transport-level failure — and
/// otherwise the translation of the batch, its response already framed as
/// bytes.
pub open spec fn spec_handle_request<F: InvokableFunction>(
    entries: Seq<crate::function_registry::RegistryEntryView<F>>,
    request: Seq<u8>,
) -> Option<Result<Seq<u8>, crate::error::InvocationErrorView>> {
    match spec_decode_to_function(request) {
        None => None,
        Some(to_function) => Some(
            match crate::invocation_bridge::invocation_result(entries, to_function) {
                Ok(from_function) => Ok(spec_encode_from_function(from_function)),
                Err(e) => Err(e),
            },
        ),
    }
}

/// Serves one request: decodes the batch envelope, translates the batch,
/// and frames the response. Returns nothing when the request bytes are not
/// a well-formed envelope — a transport-level failure.
pub fn handle_request<F: InvokableFunction>(
    registry: &crate::function_registry::FunctionRegistry<F>,
    request: &Vec<u8>,
) -> (r: Option<Result<Vec<u8>, crate::error::InvocationError>>)
    ensures
        ({
            let s = spec_handle_request(registry@, request@);
            &&& r is Some <==> s is Some
            &&& r is Some ==> (r->0 is Ok <==> s->0 is Ok)
            &&& r is Some && r->0 is Ok ==> r->0->Ok_0@ == s->0->Ok_0
            &&& r is Some && r->0 is Err ==> r->0->Err_0@ == s->0->Err_0
        }),
{
    let to_function = match decode_to_function(request) {
        Option::None => {
            return None;
        },
        Option::Some(t) => t,
    };
    match registry.invoke_from_proto(to_function) {
        Ok(from_function) => Some(Ok(encode_from_function(&from_function))),
        Err(e) => Some(Err(e)),
    }
}

} // verus!
