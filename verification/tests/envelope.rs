use statefun::{Address, Context, Effects, Expiration, FromFunction, FunctionRegistry,
    FunctionType, InvokableFunction, Message, Serializable, ToFunction, TypedValue, ValueSpec};
use statefun::envelope::{decode_to_function, encode_from_function, handle_request};
use statefun::request_reply::{IncompleteInvocationContext, InvocationResponse,
    PersistedValueSpec, ExpirationSpec, ExpireMode};

fn string_typename() -> String {
    "io.statefun.types/string".to_string()
}

// A string field is tag, length, bytes; an omitted field is nothing.
fn str_field(tag: u8, s: &str) -> Vec<u8> {
    let mut out = Vec::new();
    if !s.is_empty() {
        out.push(tag);
        out.push(s.len() as u8);
        out.extend_from_slice(s.as_bytes());
    }
    out
}

fn ld_field(tag: u8, body: &[u8]) -> Vec<u8> {
    let mut out = Vec::new();
    if !body.is_empty() {
        out.push(tag);
        out.push(body.len() as u8);
        out.extend_from_slice(body);
    }
    out
}

fn rep_field(tag: u8, body: &[u8]) -> Vec<u8> {
    let mut out = vec![tag, body.len() as u8];
    out.extend_from_slice(body);
    out
}

fn request_envelope(batch: &[u8]) -> Vec<u8> {
    // the invocation-batch entry of the envelope carries field number 100
    let mut out = vec![0xA2, 0x06, batch.len() as u8];
    out.extend_from_slice(batch);
    out
}

#[test]
fn empty_response_has_the_exact_wire_form() {
    let response = FromFunction::InvocationResponse(InvocationResponse {
        outgoing_messages: vec![],
        delayed_invocations: vec![],
        outgoing_egresses: vec![],
        state_mutations: vec![],
    });
    assert_eq!(encode_from_function(&response), vec![0xA2, 0x06, 0]);
}

#[test]
fn incomplete_context_has_the_exact_wire_form() {
    let incomplete = FromFunction::IncompleteInvocationContext(IncompleteInvocationContext {
        missing_values: vec![PersistedValueSpec {
            state_name: "c".to_string(),
            expiration_spec: ExpirationSpec {
                mode: ExpireMode::NoExpiration,
                expire_after_millis: 0,
            },
            type_typename: "t".to_string(),
        }],
    });
    // state_name "c", an all-default expiration omitted, type name "t"
    assert_eq!(
        encode_from_function(&incomplete),
        vec![0xAA, 0x06, 8, 10, 6, 10, 1, 99, 26, 1, 116]
    );
}

#[test]
fn batch_envelope_decodes_to_its_parts() {
    let mut address = Vec::new();
    address.extend_from_slice(&str_field(10, "a"));
    address.extend_from_slice(&str_field(18, "b"));
    address.extend_from_slice(&str_field(26, "c"));

    let mut argument = Vec::new();
    argument.extend_from_slice(&str_field(10, "t"));
    argument.extend_from_slice(&[16, 1]);
    argument.extend_from_slice(&ld_field(26, &[7]));

    let invocation = ld_field(18, &argument);

    let mut batch = Vec::new();
    batch.extend_from_slice(&ld_field(10, &address));
    batch.extend_from_slice(&rep_field(26, &invocation));

    let request = request_envelope(&batch);
    let to_function = decode_to_function(&request).unwrap();

    assert_eq!(to_function.target, Address::new(FunctionType::new("a", "b"), "c"));
    assert_eq!(to_function.state.len(), 0);
    assert_eq!(to_function.invocations.len(), 1);
    let inv = &to_function.invocations[0];
    // an omitted caller reads as the all-empty ingress address
    assert_eq!(inv.caller, Address::new(FunctionType::new("", ""), ""));
    assert_eq!(inv.argument.typename, "t");
    assert!(inv.argument.has_value);
    assert_eq!(inv.argument.value, vec![7]);
}

#[test]
fn malformed_envelopes_are_rejected() {
    assert!(decode_to_function(&vec![1, 2, 3]).is_none());
    // a batch entry whose length overruns the buffer
    assert!(decode_to_function(&vec![0xA2, 0x06, 9, 0]).is_none());
    let registry: FunctionRegistry<Echo> = FunctionRegistry::new();
    assert!(handle_request(&registry, &vec![255]).is_none());
}

struct Echo;

impl InvokableFunction for Echo {
    fn effects_spec(
        &self,
        _context: statefun::context::ContextView,
        _message: statefun::typed_value::TypedValueView,
    ) -> statefun::effects::EffectsView {
        panic!()
    }

    fn invoke(&self, context: Context<'_>, message: Message) -> Effects {
        let text = message.get::<String>().unwrap();
        let mut effects = Effects::new();
        effects.send(context.self_address(), &text).unwrap();
        effects
    }
}

#[test]
fn requests_are_served_end_to_end_as_bytes() {
    let mut registry = FunctionRegistry::new();
    registry.register_fn(FunctionType::new("ns", "echo"), vec![], Echo);

    let payload = "ping".to_string().serialize(string_typename()).unwrap();
    let mut argument = Vec::new();
    argument.extend_from_slice(&str_field(10, &string_typename()));
    argument.extend_from_slice(&[16, 1]);
    argument.extend_from_slice(&ld_field(26, &payload));

    let mut address = Vec::new();
    address.extend_from_slice(&str_field(10, "ns"));
    address.extend_from_slice(&str_field(18, "echo"));
    address.extend_from_slice(&str_field(26, "id-1"));

    let invocation = ld_field(18, &argument);
    let mut batch = Vec::new();
    batch.extend_from_slice(&ld_field(10, &address));
    batch.extend_from_slice(&rep_field(26, &invocation));
    let request = request_envelope(&batch);

    let response_bytes = handle_request(&registry, &request).unwrap().unwrap();

    // the same batch, translated in memory and framed, gives the same bytes
    let to_function = decode_to_function(&request).unwrap();
    let from_function = registry.invoke_from_proto(to_function).unwrap();
    assert_eq!(response_bytes, encode_from_function(&from_function));

    // and the framed response is an invocation-result entry
    assert_eq!(&response_bytes[0..2], &[0xA2, 0x06]);
    match from_function {
        FromFunction::InvocationResponse(r) => {
            assert_eq!(r.outgoing_messages.len(), 1);
            assert_eq!(
                String::deserialize(string_typename(), &r.outgoing_messages[0].argument.value)
                    .unwrap(),
                "ping"
            );
        },
        FromFunction::IncompleteInvocationContext(_) => panic!("expected a response"),
    }
}

#[test]
fn missing_state_is_negotiated_end_to_end_as_bytes() {
    let mut registry = FunctionRegistry::new();
    registry.register_fn(
        FunctionType::new("ns", "echo"),
        vec![ValueSpec::<i32>::new("seen", Expiration::never()).into()],
        Echo,
    );

    let mut address = Vec::new();
    address.extend_from_slice(&str_field(10, "ns"));
    address.extend_from_slice(&str_field(18, "echo"));
    address.extend_from_slice(&str_field(26, "id-1"));

    let mut argument = Vec::new();
    argument.extend_from_slice(&str_field(10, &string_typename()));
    argument.extend_from_slice(&[16, 1]);
    let invocation = ld_field(18, &argument);

    let mut batch = Vec::new();
    batch.extend_from_slice(&ld_field(10, &address));
    batch.extend_from_slice(&rep_field(26, &invocation));
    let request = request_envelope(&batch);

    let response_bytes = handle_request(&registry, &request).unwrap().unwrap();
    // the framed response is an incomplete-invocation-context entry
    assert_eq!(&response_bytes[0..2], &[0xAA, 0x06]);
}

#[test]
fn unknown_target_is_an_error_end_to_end() {
    let registry: FunctionRegistry<Echo> = FunctionRegistry::new();

    let mut address = Vec::new();
    address.extend_from_slice(&str_field(10, "ns"));
    address.extend_from_slice(&str_field(18, "unregistered"));
    let mut batch = Vec::new();
    batch.extend_from_slice(&ld_field(10, &address));
    let request = request_envelope(&batch);

    let result = handle_request(&registry, &request).unwrap();
    assert!(result.is_err());
}

#[test]
fn a_typed_value_message_round_trips_through_the_envelope() {
    // encode a ToFunction-shaped envelope whose argument carries bytes that
    // differ from their text form, so an identity stub would be caught
    let payload = "héllo".to_string().serialize(string_typename()).unwrap();
    assert_ne!(payload, "héllo".as_bytes().to_vec());

    let mut argument = Vec::new();
    argument.extend_from_slice(&str_field(10, &string_typename()));
    argument.extend_from_slice(&[16, 1]);
    argument.extend_from_slice(&ld_field(26, &payload));
    let invocation = ld_field(18, &argument);
    let mut batch = Vec::new();
    batch.extend_from_slice(&rep_field(26, &invocation));
    let request = request_envelope(&batch);

    let to_function = decode_to_function(&request).unwrap();
    let message = Message::new(TypedValue::new(
        to_function.invocations[0].argument.typename.clone(),
        to_function.invocations[0].argument.value.clone(),
    ));
    assert_eq!(message.get::<String>().unwrap(), "héllo");
}
