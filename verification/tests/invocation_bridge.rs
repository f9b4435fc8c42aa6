use statefun::{Address, Context, Effects, Expiration, FromFunction, FunctionRegistry,
    FunctionType, InvokableFunction, Message, Serializable, ToFunction, TypedValue, ValueSpec};
use statefun::request_reply::{FromFunctionDelayedInvocation, FromFunctionInvocation, EgressMessage,
    Invocation, PersistedValue};
use statefun::EgressIdentifier;

const MESSAGE1: &str = "fli";
const MESSAGE2: &str = "fla";
const MESSAGE3: &str = "flu";

fn string_typename() -> String {
    "io.statefun.types/string".to_string()
}

fn int_typename() -> String {
    "io.statefun.types/int".to_string()
}

fn ser_string(s: &str) -> Vec<u8> {
    s.to_string().serialize(string_typename()).unwrap()
}

fn ser_i32(v: i32) -> Vec<u8> {
    v.serialize(int_typename()).unwrap()
}

fn deser_string(buffer: &Vec<u8>) -> String {
    String::deserialize(string_typename(), buffer).unwrap()
}

fn foo_state() -> ValueSpec<i32> {
    ValueSpec::<i32>::new("foo", Expiration::never())
}

fn bar_state() -> ValueSpec<i32> {
    ValueSpec::<i32>::new("bar", Expiration::never())
}

fn function_type() -> FunctionType {
    FunctionType::new("namespace", "foo")
}

fn self_address() -> Address {
    Address::new(function_type(), "self")
}

fn caller_address() -> Address {
    Address::new(function_type(), "caller")
}

fn states() -> Vec<PersistedValue> {
    vec![state("foo", 42), state("bar", 84)]
}

fn state(name: &str, value: i32) -> PersistedValue {
    PersistedValue::new(name.to_string(), TypedValue::new(int_typename(), ser_i32(value)))
}

fn invocations() -> Vec<Invocation> {
    vec![
        invocation(caller_address(), MESSAGE1),
        invocation(caller_address(), MESSAGE2),
        invocation(caller_address(), MESSAGE3),
    ]
}

fn invocation(caller: Address, argument: &str) -> Invocation {
    Invocation::new(caller, TypedValue::new(string_typename(), ser_string(argument)))
}

/// Creates a complete `ToFunction` that contains every possible field,
/// including multiple invocations to test batching behaviour.
fn complete_to_function() -> ToFunction {
    ToFunction::new(self_address(), states(), invocations())
}

fn take_invocation_result(from_function: FromFunction) -> (
    Vec<FromFunctionInvocation>,
    Vec<FromFunctionDelayedInvocation>,
    Vec<EgressMessage>,
) {
    match from_function {
        FromFunction::InvocationResponse(r) => (
            r.outgoing_messages,
            r.delayed_invocations,
            r.outgoing_egresses,
        ),
        FromFunction::IncompleteInvocationContext(_) => {
            panic!("expected an invocation response")
        },
    }
}

fn assert_invocation(
    invocation: &FromFunctionInvocation,
    expected_address: Address,
    expected_message: String,
) {
    assert_eq!(invocation.target, expected_address);
    assert_eq!(deser_string(&invocation.argument.value), expected_message);
}

fn assert_delayed_invocation(
    invocation: &FromFunctionDelayedInvocation,
    expected_address: Address,
    expected_delay: u64,
    is_cancellation: bool,
    cancellation_token: String,
    expected_message: String,
) {
    assert_eq!(invocation.target.as_ref().unwrap(), &expected_address);
    assert_eq!(invocation.delay_in_ms, expected_delay);
    assert_eq!(invocation.is_cancellation_request, is_cancellation);
    assert_eq!(invocation.cancellation_token, cancellation_token);
    assert_eq!(
        deser_string(&invocation.argument.as_ref().unwrap().value),
        expected_message
    );
}

fn assert_egress(
    egress: &EgressMessage,
    expected_namespace: &str,
    expected_name: &str,
    expected_message: String,
) {
    assert_eq!(egress.egress_namespace, expected_namespace);
    assert_eq!(egress.egress_type, expected_name);
    assert_eq!(deser_string(&egress.argument.value), expected_message);
}

struct CheckContextAndEcho;

impl InvokableFunction for CheckContextAndEcho {
    fn effects_spec(
        &self,
        _context: statefun::context::ContextView,
        _message: statefun::typed_value::TypedValueView,
    ) -> statefun::effects::EffectsView {
        panic!()
    }

    fn invoke(&self, context: Context<'_>, message: Message) -> Effects {
        assert_eq!(context.self_address(), self_address());
        assert_eq!(context.caller_address(), caller_address());
        assert_eq!(
            context.get_state(foo_state()).expect("State not here.").unwrap(),
            42
        );
        assert_eq!(
            context.get_state(bar_state()).expect("State not here.").unwrap(),
            84
        );

        let string_message = message.get::<String>().unwrap();
        let mut effects = Effects::new();

        // the test checks against this message to ensure that the function
        // was invoked and all the asserts above were executed
        effects.send(self_address(), &string_message).unwrap();

        effects
    }
}

// Verifies that all possible fields in a ToFunction are accessible in a function
#[test]
fn forward_to_function() {
    let mut registry = FunctionRegistry::new();
    registry.register_fn(
        function_type(),
        vec![foo_state().into(), bar_state().into()],
        CheckContextAndEcho,
    );

    // request
    let to_function = complete_to_function();
    let from_function = registry.invoke_from_proto(to_function).unwrap();

    // response
    let (outgoing, _, _) = take_invocation_result(from_function);

    assert_invocation(&outgoing[0], self_address(), MESSAGE1.to_string());
    assert_invocation(&outgoing[1], self_address(), MESSAGE2.to_string());
    assert_invocation(&outgoing[2], self_address(), MESSAGE3.to_string());
}

struct EchoHandler;

impl InvokableFunction for EchoHandler {
    fn effects_spec(
        &self,
        _context: statefun::context::ContextView,
        _message: statefun::typed_value::TypedValueView,
    ) -> statefun::effects::EffectsView {
        panic!()
    }

    fn invoke(&self, _context: Context<'_>, message: Message) -> Effects {
        let string_message = message.get::<String>().unwrap();
        let mut effects = Effects::new();
        effects.send(self_address(), &string_message).unwrap();
        effects
    }
}

// Verifies that messages are correctly forwarded to the FromFunction
#[test]
fn forward_messages_from_function() {
    let mut registry = FunctionRegistry::new();
    registry.register_fn(
        function_type(),
        vec![foo_state().into(), bar_state().into()],
        EchoHandler,
    );

    let to_function = complete_to_function();
    let from_function = registry.invoke_from_proto(to_function).unwrap();

    let (outgoing, _, _) = take_invocation_result(from_function);

    assert_invocation(&outgoing[0], self_address(), MESSAGE1.to_string());
    assert_invocation(&outgoing[1], self_address(), MESSAGE2.to_string());
    assert_invocation(&outgoing[2], self_address(), MESSAGE3.to_string());
}

struct DelayedEchoHandler;

impl InvokableFunction for DelayedEchoHandler {
    fn effects_spec(
        &self,
        _context: statefun::context::ContextView,
        _message: statefun::typed_value::TypedValueView,
    ) -> statefun::effects::EffectsView {
        panic!()
    }

    fn invoke(&self, _context: Context<'_>, message: Message) -> Effects {
        let string_message = message.get::<String>().unwrap();
        let mut effects = Effects::new();
        effects
            .send_after(caller_address(), 5000, "cancel-token".to_string(), &string_message)
            .unwrap();
        effects
    }
}

// Verifies that delayed messages are correctly forwarded to the FromFunction
#[test]
fn forward_delayed_messages_from_function() {
    let mut registry = FunctionRegistry::new();
    registry.register_fn(function_type(), vec![], DelayedEchoHandler);

    let to_function = complete_to_function();
    let from_function = registry.invoke_from_proto(to_function).unwrap();

    let (_, delayed, _) = take_invocation_result(from_function);

    assert_delayed_invocation(
        &delayed[0],
        caller_address(),
        5000,
        false,
        "cancel-token".to_string(),
        MESSAGE1.to_string(),
    );
    assert_delayed_invocation(
        &delayed[1],
        caller_address(),
        5000,
        false,
        "cancel-token".to_string(),
        MESSAGE2.to_string(),
    );
    assert_delayed_invocation(
        &delayed[2],
        caller_address(),
        5000,
        false,
        "cancel-token".to_string(),
        MESSAGE3.to_string(),
    );
}

struct EgressHandler;

impl InvokableFunction for EgressHandler {
    fn effects_spec(
        &self,
        _context: statefun::context::ContextView,
        _message: statefun::typed_value::TypedValueView,
    ) -> statefun::effects::EffectsView {
        panic!()
    }

    fn invoke(&self, _context: Context<'_>, _message: Message) -> Effects {
        let mut effects = Effects::new();
        effects
            .egress(EgressIdentifier::new("namespace", "name"), &"egress".to_string())
            .unwrap();
        effects
    }
}

// Verifies that egresses are correctly forwarded to the FromFunction
#[test]
fn forward_egresses_from_function() {
    let mut registry = FunctionRegistry::new();
    registry.register_fn(function_type(), vec![], EgressHandler);

    let to_function = complete_to_function();
    let from_function = registry.invoke_from_proto(to_function).unwrap();

    let (_, _, egresses) = take_invocation_result(from_function);

    assert_egress(&egresses[0], "namespace", "name", "egress".to_string());
    assert_egress(&egresses[1], "namespace", "name", "egress".to_string());
    assert_egress(&egresses[2], "namespace", "name", "egress".to_string());
}
