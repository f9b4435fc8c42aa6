use statefun::{Address, Context, Effects, Expiration, ExpirationType, FromFunction,
    FunctionRegistry, FunctionType, InvokableFunction, Message, Serializable, ToFunction, TypeName,
    TypedValue, ValueSpec};
use statefun::request_reply::{ExpireMode, Invocation, MutationType, PersistedValue};

fn int_typename() -> String {
    "io.statefun.types/int".to_string()
}

fn string_typename() -> String {
    "io.statefun.types/string".to_string()
}

fn ser_i32(v: i32) -> Vec<u8> {
    v.serialize(int_typename()).unwrap()
}

fn ser_string(s: &str) -> Vec<u8> {
    s.to_string().serialize(string_typename()).unwrap()
}

fn target_type() -> FunctionType {
    FunctionType::new("example", "user")
}

fn target_address(id: &str) -> Address {
    Address::new(target_type(), id)
}

fn ingress_caller() -> Address {
    Address::new(FunctionType::new("", ""), "")
}

fn string_invocation(text: &str) -> Invocation {
    Invocation::new(ingress_caller(), TypedValue::new(string_typename(), ser_string(text)))
}

struct PanickingHandler;

impl InvokableFunction for PanickingHandler {
    fn effects_spec(
        &self,
        _context: statefun::context::ContextView,
        _message: statefun::typed_value::TypedValueView,
    ) -> statefun::effects::EffectsView {
        panic!()
    }

    fn invoke(&self, _context: Context<'_>, _message: Message) -> Effects {
        panic!("no invocation may run when declared state is missing");
    }
}

// Missing state triggers negotiation: the response lists every declared cell
// absent from the snapshot, with its type name and expiration policy, and no
// invocation is executed.
#[test]
fn missing_state_triggers_negotiation() {
    let mut registry = FunctionRegistry::new();
    registry.register_fn(
        target_type(),
        vec![
            ValueSpec::<i32>::new("seen_count", Expiration::new(ExpirationType::AfterWrite, 5000))
                .into(),
            ValueSpec::<i64>::new("last_seen", Expiration::never()).into(),
        ],
        PanickingHandler,
    );

    let to_function = ToFunction::new(
        target_address("alice"),
        vec![],
        vec![string_invocation("user-login")],
    );
    let from_function = registry.invoke_from_proto(to_function).unwrap();

    let incomplete = match from_function {
        FromFunction::IncompleteInvocationContext(c) => c,
        FromFunction::InvocationResponse(_) => panic!("expected a negotiation response"),
    };
    assert_eq!(incomplete.missing_values.len(), 2);

    let seen_count = &incomplete.missing_values[0];
    assert_eq!(seen_count.state_name, "seen_count");
    assert_eq!(seen_count.type_typename, "io.statefun.types/int");
    assert_eq!(seen_count.expiration_spec.mode, ExpireMode::ExpireAfterWrite);
    assert_eq!(seen_count.expiration_spec.expire_after_millis, 5000);

    let last_seen = &incomplete.missing_values[1];
    assert_eq!(last_seen.state_name, "last_seen");
    assert_eq!(last_seen.type_typename, "io.statefun.types/long");
    assert_eq!(last_seen.expiration_spec.mode, ExpireMode::NoExpiration);
    assert_eq!(last_seen.expiration_spec.expire_after_millis, 0);
}

fn seen_count_spec() -> ValueSpec<i32> {
    ValueSpec::<i32>::new("seen_count", Expiration::never())
}

struct CountingHandler;

impl InvokableFunction for CountingHandler {
    fn effects_spec(
        &self,
        _context: statefun::context::ContextView,
        _message: statefun::typed_value::TypedValueView,
    ) -> statefun::effects::EffectsView {
        panic!()
    }

    fn invoke(&self, context: Context<'_>, _message: Message) -> Effects {
        let seen_count = match context.get_state(seen_count_spec()) {
            Some(stored) => stored.unwrap(),
            None => 0,
        };
        let mut effects = Effects::new();
        effects.update_state(seen_count_spec(), &(seen_count + 1)).unwrap();
        effects
    }
}

// Three-invocation batch with in-batch visibility: each invocation observes
// the count the previous one wrote, and the response coalesces the three
// writes into one mutation carrying the final count.
#[test]
fn batch_counts_with_in_batch_visibility() {
    let mut registry = FunctionRegistry::new();
    registry.register_fn(target_type(), vec![seen_count_spec().into()], CountingHandler);

    let to_function = ToFunction::new(
        target_address("alice"),
        vec![PersistedValue::new(
            "seen_count".to_string(),
            TypedValue::new(int_typename(), vec![]),
        )],
        vec![
            string_invocation("one"),
            string_invocation("two"),
            string_invocation("three"),
        ],
    );
    let from_function = registry.invoke_from_proto(to_function).unwrap();

    let response = match from_function {
        FromFunction::InvocationResponse(r) => r,
        FromFunction::IncompleteInvocationContext(_) => panic!("expected a response"),
    };
    assert_eq!(response.outgoing_messages.len(), 0);
    assert_eq!(response.state_mutations.len(), 1);
    let mutation = &response.state_mutations[0];
    assert_eq!(mutation.mutation_type, MutationType::Modify);
    assert_eq!(mutation.state_name, "seen_count");
    let written = mutation.state_value.as_ref().unwrap();
    assert_eq!(written.typename, int_typename());
    assert_eq!(i32::deserialize(int_typename(), &written.value).unwrap(), 3);
}

// The coordinator may omit the type name on a cell that was allocated but
// never written; the lookup keys on the name alone and still finds the
// stored value.
#[test]
fn blank_snapshot_typename_does_not_hide_the_cell() {
    let mut registry = FunctionRegistry::new();
    registry.register_fn(target_type(), vec![seen_count_spec().into()], CountingHandler);

    let to_function = ToFunction::new(
        target_address("alice"),
        vec![PersistedValue::new(
            "seen_count".to_string(),
            TypedValue::new("".to_string(), ser_i32(2)),
        )],
        vec![string_invocation("one")],
    );
    let from_function = registry.invoke_from_proto(to_function).unwrap();

    let response = match from_function {
        FromFunction::InvocationResponse(r) => r,
        FromFunction::IncompleteInvocationContext(_) => panic!("expected a response"),
    };
    let written = response.state_mutations[0].state_value.as_ref().unwrap();
    assert_eq!(i32::deserialize(int_typename(), &written.value).unwrap(), 3);
}

fn x_spec() -> ValueSpec<i32> {
    ValueSpec::<i32>::new("x", Expiration::never())
}

struct UpdateThenDelete;

impl InvokableFunction for UpdateThenDelete {
    fn effects_spec(
        &self,
        _context: statefun::context::ContextView,
        _message: statefun::typed_value::TypedValueView,
    ) -> statefun::effects::EffectsView {
        panic!()
    }

    fn invoke(&self, context: Context<'_>, message: Message) -> Effects {
        let mut effects = Effects::new();
        if message.get::<String>().unwrap() == "write" {
            effects.update_state(x_spec(), &7).unwrap();
            effects.delete_state(x_spec());
        } else {
            // the deletion of the first invocation must read back as an
            // allocated-but-empty cell, not as a missing one
            assert!(context.get_state(x_spec()).is_none());
        }
        effects
    }
}

// Update then delete coalesces to a single deletion, and a subsequent read
// in the same batch yields nothing without triggering renegotiation.
#[test]
fn update_then_delete_coalesces_to_delete() {
    let mut registry = FunctionRegistry::new();
    registry.register_fn(target_type(), vec![x_spec().into()], UpdateThenDelete);

    let to_function = ToFunction::new(
        target_address("alice"),
        vec![PersistedValue::new("x".to_string(), TypedValue::new(int_typename(), vec![]))],
        vec![string_invocation("write"), string_invocation("read")],
    );
    let from_function = registry.invoke_from_proto(to_function).unwrap();

    let response = match from_function {
        FromFunction::InvocationResponse(r) => r,
        FromFunction::IncompleteInvocationContext(_) => panic!("expected a response"),
    };
    assert_eq!(response.state_mutations.len(), 1);
    let mutation = &response.state_mutations[0];
    assert_eq!(mutation.mutation_type, MutationType::Delete);
    assert_eq!(mutation.state_name, "x");
    assert!(mutation.state_value.is_none());
}

struct DelayedWithCancellation;

impl InvokableFunction for DelayedWithCancellation {
    fn effects_spec(
        &self,
        _context: statefun::context::ContextView,
        _message: statefun::typed_value::TypedValueView,
    ) -> statefun::effects::EffectsView {
        panic!()
    }

    fn invoke(&self, _context: Context<'_>, _message: Message) -> Effects {
        let mut effects = Effects::new();
        effects
            .send_after(target_address("bob"), 3000, "tok-1".to_string(), &"hi".to_string())
            .unwrap();
        effects.cancel_delayed_message("tok-1".to_string());
        effects
    }
}

// A delayed send and a cancellation carrying the same token are both
// forwarded, in order; the cancellation carries the token alone.
#[test]
fn delayed_send_with_cancellation_token() {
    let mut registry = FunctionRegistry::new();
    registry.register_fn(target_type(), vec![], DelayedWithCancellation);

    let to_function = ToFunction::new(
        target_address("alice"),
        vec![],
        vec![string_invocation("go")],
    );
    let from_function = registry.invoke_from_proto(to_function).unwrap();

    let response = match from_function {
        FromFunction::InvocationResponse(r) => r,
        FromFunction::IncompleteInvocationContext(_) => panic!("expected a response"),
    };
    assert_eq!(response.delayed_invocations.len(), 2);

    let scheduled = &response.delayed_invocations[0];
    assert!(!scheduled.is_cancellation_request);
    assert_eq!(scheduled.delay_in_ms, 3000);
    assert_eq!(scheduled.cancellation_token, "tok-1");
    let argument = scheduled.argument.as_ref().unwrap();
    assert_eq!(argument.typename, "io.statefun.types/string");
    assert_eq!(
        String::deserialize(string_typename(), &argument.value).unwrap(),
        "hi"
    );

    let cancellation = &response.delayed_invocations[1];
    assert!(cancellation.is_cancellation_request);
    assert_eq!(cancellation.cancellation_token, "tok-1");
    assert!(cancellation.target.is_none());
    assert!(cancellation.argument.is_none());
}

struct EgressFanOut;

impl InvokableFunction for EgressFanOut {
    fn effects_spec(
        &self,
        _context: statefun::context::ContextView,
        _message: statefun::typed_value::TypedValueView,
    ) -> statefun::effects::EffectsView {
        panic!()
    }

    fn invoke(&self, _context: Context<'_>, _message: Message) -> Effects {
        let mut effects = Effects::new();
        effects
            .egress(statefun::EgressIdentifier::new("ns", "n"), &"greeting".to_string())
            .unwrap();
        effects
            .egress(statefun::EgressIdentifier::new("ns", "n"), &"again".to_string())
            .unwrap();
        effects
    }
}

// Egress fan-out: both records appear, in order.
#[test]
fn egress_fan_out() {
    let mut registry = FunctionRegistry::new();
    registry.register_fn(target_type(), vec![], EgressFanOut);

    let to_function = ToFunction::new(
        target_address("alice"),
        vec![],
        vec![string_invocation("go")],
    );
    let from_function = registry.invoke_from_proto(to_function).unwrap();

    let response = match from_function {
        FromFunction::InvocationResponse(r) => r,
        FromFunction::IncompleteInvocationContext(_) => panic!("expected a response"),
    };
    assert_eq!(response.outgoing_egresses.len(), 2);
    for (egress, expected) in response.outgoing_egresses.iter().zip(["greeting", "again"]) {
        assert_eq!(egress.egress_namespace, "ns");
        assert_eq!(egress.egress_type, "n");
        assert_eq!(egress.argument.typename, "io.statefun.types/string");
        assert_eq!(
            String::deserialize(string_typename(), &egress.argument.value).unwrap(),
            expected
        );
    }
}

#[derive(Debug)]
struct Bar;

impl vstd::prelude::View for Bar {
    type V = Bar;

    fn view(&self) -> Bar {
        panic!()
    }
}

impl TypeName for Bar {
    fn typename_spec() -> vstd::prelude::Seq<char> {
        panic!()
    }

    fn get_typename() -> &'static str {
        "user/bar"
    }
}

impl Serializable<Bar> for Bar {
    fn ser_spec(
        &self,
        _typename: vstd::prelude::Seq<char>,
    ) -> Result<vstd::prelude::Seq<u8>, vstd::prelude::Seq<char>> {
        panic!()
    }

    fn deser_spec(
        _typename: vstd::prelude::Seq<char>,
        _buffer: vstd::prelude::Seq<u8>,
    ) -> Result<Bar, vstd::prelude::Seq<char>> {
        panic!()
    }

    fn serialize(&self, _typename: String) -> Result<Vec<u8>, String> {
        Ok(vec![])
    }

    fn deserialize(_typename: String, _buffer: &Vec<u8>) -> Result<Bar, String> {
        Ok(Bar)
    }
}

// Unknown type on an incoming message: reading it as another type surfaces
// the exact incompatibility error to the handler.
#[test]
fn unknown_type_on_incoming_message() {
    let message = Message::new(TypedValue::new("user/foo".to_string(), vec![1, 2, 3]));
    let error = message.get::<Bar>().unwrap_err();
    assert_eq!(error, "Incompatible types. Expected: user/bar Payload: user/foo");
}
