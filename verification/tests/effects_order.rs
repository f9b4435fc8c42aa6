use statefun::{Address, Context, Effects, EgressIdentifier, Expiration, FromFunction,
    FunctionRegistry, FunctionType, InvocationError, InvokableFunction, Message, MissingStates,
    Serializable, ToFunction, TypedValue, ValueSpec, ValueSpecBase};
use statefun::request_reply::{Invocation, MutationType, PersistedValue};

fn string_typename() -> String {
    "io.statefun.types/string".to_string()
}

fn int_typename() -> String {
    "io.statefun.types/int".to_string()
}

fn target_type() -> FunctionType {
    FunctionType::new("example", "worker")
}

fn target_address() -> Address {
    Address::new(target_type(), "w1")
}

fn string_invocation(text: &str) -> Invocation {
    Invocation::new(
        Address::new(FunctionType::new("", ""), ""),
        TypedValue::new(
            string_typename(),
            text.to_string().serialize(string_typename()).unwrap(),
        ),
    )
}

fn a_spec() -> ValueSpec<i32> {
    ValueSpec::<i32>::new("a", Expiration::never())
}

fn b_spec() -> ValueSpec<i32> {
    ValueSpec::<i32>::new("b", Expiration::never())
}

/// Tags each invocation's effects with the message text, interleaving every
/// kind of effect.
struct Interleaver;

impl InvokableFunction for Interleaver {
    fn effects_spec(
        &self,
        _context: statefun::context::ContextView,
        _message: statefun::typed_value::TypedValueView,
    ) -> statefun::effects::EffectsView {
        panic!()
    }

    fn invoke(&self, _context: Context<'_>, message: Message) -> Effects {
        let tag = message.get::<String>().unwrap();
        let mut effects = Effects::new();
        effects
            .send(target_address(), &format!("{}-first", tag))
            .unwrap();
        effects
            .send_after(target_address(), 1000, format!("{}-token", tag), &"later".to_string())
            .unwrap();
        effects.cancel_delayed_message(format!("{}-cancel", tag));
        effects
            .egress(EgressIdentifier::new("ns", "sink"), &format!("{}-egress", tag))
            .unwrap();
        effects
            .send(target_address(), &format!("{}-second", tag))
            .unwrap();
        effects
    }
}

// Insertion order of outgoing messages, delayed invocations, cancellations
// and egress records is kept, across the invocations of the batch: within
// each list, everything invocation one recorded precedes everything
// invocation two recorded, in recording order.
#[test]
fn response_keeps_insertion_order_across_invocations() {
    let mut registry = FunctionRegistry::new();
    registry.register_fn(target_type(), vec![], Interleaver);

    let to_function = ToFunction::new(
        target_address(),
        vec![],
        vec![string_invocation("one"), string_invocation("two")],
    );
    let from_function = registry.invoke_from_proto(to_function).unwrap();
    let response = match from_function {
        FromFunction::InvocationResponse(r) => r,
        FromFunction::IncompleteInvocationContext(_) => panic!("expected a response"),
    };

    let outgoing: Vec<String> = response
        .outgoing_messages
        .iter()
        .map(|m| String::deserialize(string_typename(), &m.argument.value).unwrap())
        .collect();
    assert_eq!(outgoing, vec!["one-first", "one-second", "two-first", "two-second"]);

    let delayed: Vec<(bool, String)> = response
        .delayed_invocations
        .iter()
        .map(|d| (d.is_cancellation_request, d.cancellation_token.clone()))
        .collect();
    assert_eq!(
        delayed,
        vec![
            (false, "one-token".to_string()),
            (true, "one-cancel".to_string()),
            (false, "two-token".to_string()),
            (true, "two-cancel".to_string()),
        ]
    );

    let egresses: Vec<String> = response
        .outgoing_egresses
        .iter()
        .map(|e| String::deserialize(string_typename(), &e.argument.value).unwrap())
        .collect();
    assert_eq!(egresses, vec!["one-egress", "two-egress"]);
}

/// Writes both cells on the first message, then rewrites one and deletes the
/// other.
struct TwoCellWriter;

impl InvokableFunction for TwoCellWriter {
    fn effects_spec(
        &self,
        _context: statefun::context::ContextView,
        _message: statefun::typed_value::TypedValueView,
    ) -> statefun::effects::EffectsView {
        panic!()
    }

    fn invoke(&self, _context: Context<'_>, message: Message) -> Effects {
        let tag = message.get::<String>().unwrap();
        let mut effects = Effects::new();
        if tag == "first" {
            effects.update_state(a_spec(), &1).unwrap();
            effects.update_state(b_spec(), &2).unwrap();
        } else {
            effects.update_state(a_spec(), &10).unwrap();
            effects.delete_state(b_spec());
        }
        effects
    }
}

// The response carries at most one mutation per cell, and that mutation is
// the last effect any invocation of the batch produced for the cell.
#[test]
fn mutations_are_coalesced_per_cell() {
    let mut registry = FunctionRegistry::new();
    registry.register_fn(
        target_type(),
        vec![a_spec().into(), b_spec().into()],
        TwoCellWriter,
    );

    let to_function = ToFunction::new(
        target_address(),
        vec![
            PersistedValue::new("a".to_string(), TypedValue::new(int_typename(), vec![])),
            PersistedValue::new("b".to_string(), TypedValue::new(int_typename(), vec![])),
        ],
        vec![string_invocation("first"), string_invocation("second")],
    );
    let from_function = registry.invoke_from_proto(to_function).unwrap();
    let response = match from_function {
        FromFunction::InvocationResponse(r) => r,
        FromFunction::IncompleteInvocationContext(_) => panic!("expected a response"),
    };

    assert_eq!(response.state_mutations.len(), 2);
    let a = &response.state_mutations[0];
    assert_eq!(a.state_name, "a");
    assert_eq!(a.mutation_type, MutationType::Modify);
    assert_eq!(
        i32::deserialize(int_typename(), &a.state_value.as_ref().unwrap().value).unwrap(),
        10
    );
    let b = &response.state_mutations[1];
    assert_eq!(b.state_name, "b");
    assert_eq!(b.mutation_type, MutationType::Delete);
    assert!(b.state_value.is_none());
}

struct NeverCalled;

impl InvokableFunction for NeverCalled {
    fn effects_spec(
        &self,
        _context: statefun::context::ContextView,
        _message: statefun::typed_value::TypedValueView,
    ) -> statefun::effects::EffectsView {
        panic!()
    }

    fn invoke(&self, _context: Context<'_>, _message: Message) -> Effects {
        Effects::new()
    }
}

// An unknown function type is reported as the function-not-found error; a
// registered function whose declared cell is absent from the context's state
// is reported as the missing-states error naming the cell.
#[test]
fn invocation_error_variants() {
    let mut registry = FunctionRegistry::new();
    registry.register_fn(target_type(), vec![a_spec().into()], NeverCalled);

    let state = Vec::new();
    let address = target_address();
    let context = Context::new(&state, &address, &address);
    let message = Message::new(TypedValue::new("some-type".to_string(), vec![]));
    let unknown = registry.invoke(FunctionType::new("example", "absent"), context, message);
    assert!(matches!(unknown.unwrap_err(), InvocationError::FunctionNotFound(_)));

    let context = Context::new(&state, &address, &address);
    let message = Message::new(TypedValue::new("some-type".to_string(), vec![]));
    let missing = registry.invoke(target_type(), context, message);
    match missing.unwrap_err() {
        InvocationError::MissingStates(MissingStates { states }) => {
            let expected: Vec<ValueSpecBase> = vec![a_spec().into()];
            assert_eq!(states, expected);
        },
        InvocationError::FunctionNotFound(_) => panic!("the function is registered"),
    }
}

// An empty batch yields an empty invocation response, even when declared
// cells are missing from the snapshot: there is no invocation to run.
#[test]
fn empty_batch_yields_empty_response() {
    let mut registry = FunctionRegistry::new();
    registry.register_fn(target_type(), vec![a_spec().into()], NeverCalled);

    let to_function = ToFunction::new(target_address(), vec![], vec![]);
    let from_function = registry.invoke_from_proto(to_function).unwrap();
    let response = match from_function {
        FromFunction::InvocationResponse(r) => r,
        FromFunction::IncompleteInvocationContext(_) => panic!("expected a response"),
    };
    assert_eq!(response.outgoing_messages.len(), 0);
    assert_eq!(response.delayed_invocations.len(), 0);
    assert_eq!(response.outgoing_egresses.len(), 0);
    assert_eq!(response.state_mutations.len(), 0);
}
