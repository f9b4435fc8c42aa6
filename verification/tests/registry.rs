use statefun::{Address, Context, Effects, FunctionRegistry, FunctionType, InvokableFunction,
    Message, Serializable, TypedValue};

struct EmptyHandler;

impl InvokableFunction for EmptyHandler {
    fn effects_spec(
        &self,
        _context: statefun::context::ContextView,
        _message: statefun::typed_value::TypedValueView,
    ) -> statefun::effects::EffectsView {
        panic!()
    }

    fn invoke(&self, _context: Context<'_>, _message: Message) -> Effects {
        Effects::new()
    }
}

fn to_typed_value(typename: String, value: Vec<u8>) -> TypedValue {
    TypedValue::new(typename, value)
}

fn function_type_foo() -> FunctionType {
    FunctionType::new("namespace", "foo")
}

fn function_type_bar() -> FunctionType {
    FunctionType::new("namespace", "bar")
}

fn address_foo() -> Address {
    Address::new(function_type_foo(), "doctor")
}

#[test]
fn call_registered_function() {
    let state = Vec::new();
    let address = address_foo();
    let context = Context::new(&state, &address, &address);

    let mut registry = FunctionRegistry::new();
    registry.register_fn(function_type_foo(), vec![], EmptyHandler);

    let message = Message::new(to_typed_value("some-type".to_string(), vec![]));
    let result = registry.invoke(function_type_foo(), context, message);
    assert!(result.is_ok());
}

/// A handler that announces which function it stands for.
enum NamedSender {
    Foo,
    Bar,
}

impl InvokableFunction for NamedSender {
    fn effects_spec(
        &self,
        _context: statefun::context::ContextView,
        _message: statefun::typed_value::TypedValueView,
    ) -> statefun::effects::EffectsView {
        panic!()
    }

    fn invoke(&self, context: Context<'_>, _message: Message) -> Effects {
        let mut effects = Effects::new();
        let message = match self {
            NamedSender::Foo => "function_foo".to_string(),
            NamedSender::Bar => "function_bar".to_string(),
        };
        effects.send(context.self_address(), &message).unwrap();
        effects
    }
}

#[test]
fn call_correct_function() {
    let state = Vec::new();

    let mut registry = FunctionRegistry::new();
    registry.register_fn(function_type_foo(), vec![], NamedSender::Foo);
    registry.register_fn(function_type_bar(), vec![], NamedSender::Bar);

    let address_foo = address_foo();
    let context = Context::new(&state, &address_foo, &address_foo);
    let message = Message::new(to_typed_value("some-type".to_string(), vec![]));
    let effects_foo = registry.invoke(function_type_foo(), context, message).unwrap();
    assert_eq!(
        String::deserialize("some-type".to_string(), &effects_foo.invocations[0].2).unwrap(),
        "function_foo",
    );

    let address_bar = Address::new(function_type_bar(), "doctor");
    let context = Context::new(&state, &address_bar, &address_bar);
    let message = Message::new(to_typed_value("some-type".to_string(), vec![]));
    let effects_bar = registry.invoke(function_type_bar(), context, message).unwrap();
    assert_eq!(
        String::deserialize("some-type".to_string(), &effects_bar.invocations[0].2).unwrap(),
        "function_bar",
    );
}

#[test]
fn call_unknown_function() {
    let state = Vec::new();
    let address = address_foo();
    let context = Context::new(&state, &address, &address);

    let registry: FunctionRegistry<EmptyHandler> = FunctionRegistry::new();
    let message = Message::new(to_typed_value("some-type".to_string(), vec![]));

    let result = registry.invoke(function_type_bar(), context, message);
    assert!(result.is_err());
}
