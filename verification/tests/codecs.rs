use statefun::{BuiltInTypes, Expiration, ExpirationType, Serializable, StateMessage, TypeSpec,
    TypedValue, ValueSpecBase};
use statefun::built_in_types::from_str;

fn bool_typename() -> String {
    "io.statefun.types/bool".to_string()
}

fn int_typename() -> String {
    "io.statefun.types/int".to_string()
}

fn long_typename() -> String {
    "io.statefun.types/long".to_string()
}

fn string_typename() -> String {
    "io.statefun.types/string".to_string()
}

#[test]
fn bool_wire_format_is_exact() {
    assert_eq!(true.serialize(bool_typename()).unwrap(), vec![8, 1]);
    assert_eq!(false.serialize(bool_typename()).unwrap(), Vec::<u8>::new());
    assert_eq!(bool::deserialize(bool_typename(), &vec![8, 1]).unwrap(), true);
    assert_eq!(bool::deserialize(bool_typename(), &vec![]).unwrap(), false);
}

#[test]
fn int_wire_format_is_exact() {
    assert_eq!(42i32.serialize(int_typename()).unwrap(), vec![13, 42, 0, 0, 0]);
    assert_eq!(0i32.serialize(int_typename()).unwrap(), Vec::<u8>::new());
    assert_eq!(
        (-1i32).serialize(int_typename()).unwrap(),
        vec![13, 255, 255, 255, 255]
    );
    assert_eq!(i32::deserialize(int_typename(), &vec![13, 42, 0, 0, 0]).unwrap(), 42);
    assert_eq!(i32::deserialize(int_typename(), &vec![]).unwrap(), 0);
}

#[test]
fn long_wire_format_is_exact() {
    assert_eq!(
        84i64.serialize(long_typename()).unwrap(),
        vec![9, 84, 0, 0, 0, 0, 0, 0, 0]
    );
    assert_eq!(0i64.serialize(long_typename()).unwrap(), Vec::<u8>::new());
    assert_eq!(
        i64::deserialize(long_typename(), &vec![9, 84, 0, 0, 0, 0, 0, 0, 0]).unwrap(),
        84
    );
}

#[test]
fn string_wire_format_is_exact() {
    assert_eq!(
        "fli".to_string().serialize(string_typename()).unwrap(),
        vec![10, 3, 102, 108, 105]
    );
    assert_eq!(
        "".to_string().serialize(string_typename()).unwrap(),
        Vec::<u8>::new()
    );
    assert_eq!(
        String::deserialize(string_typename(), &vec![10, 3, 102, 108, 105]).unwrap(),
        "fli"
    );
    assert_eq!(String::deserialize(string_typename(), &vec![]).unwrap(), "");
}

#[test]
fn round_trips_cover_the_value_ranges() {
    for v in [true, false] {
        let bytes = v.serialize(bool_typename()).unwrap();
        assert_eq!(bool::deserialize(bool_typename(), &bytes).unwrap(), v);
    }
    for v in [0i32, 1, -1, 42, i32::MIN, i32::MAX] {
        let bytes = v.serialize(int_typename()).unwrap();
        assert_eq!(i32::deserialize(int_typename(), &bytes).unwrap(), v);
    }
    for v in [0i64, 1, -1, 84, i64::MIN, i64::MAX] {
        let bytes = v.serialize(long_typename()).unwrap();
        assert_eq!(i64::deserialize(long_typename(), &bytes).unwrap(), v);
    }
    for v in ["", "a", "fli", "a longer sentence with spaces", "snowman \u{2603} and more"] {
        let bytes = v.to_string().serialize(string_typename()).unwrap();
        assert_eq!(String::deserialize(string_typename(), &bytes).unwrap(), v);
    }
}

#[test]
fn malformed_payloads_are_rejected() {
    assert_eq!(
        bool::deserialize(bool_typename(), &vec![1, 2, 3]).unwrap_err(),
        "the payload is not a boolean wrapper"
    );
    assert_eq!(
        i32::deserialize(int_typename(), &vec![13, 42]).unwrap_err(),
        "the payload is not an integer wrapper"
    );
    assert_eq!(
        i64::deserialize(long_typename(), &vec![9, 84]).unwrap_err(),
        "the payload is not a long wrapper"
    );
    // a length field pointing past the end of the payload
    assert_eq!(
        String::deserialize(string_typename(), &vec![10, 9, 102]).unwrap_err(),
        "the payload is not a string wrapper"
    );
    // invalid UTF-8 in the payload
    assert_eq!(
        String::deserialize(string_typename(), &vec![10, 1, 0xFF]).unwrap_err(),
        "the payload is not a string wrapper"
    );
}

#[test]
fn well_known_type_names() {
    assert_eq!(BuiltInTypes::Boolean.as_const_str(), "io.statefun.types/bool");
    assert_eq!(BuiltInTypes::Integer.as_const_str(), "io.statefun.types/int");
    assert_eq!(BuiltInTypes::Long.as_const_str(), "io.statefun.types/long");
    assert_eq!(BuiltInTypes::Float.as_const_str(), "io.statefun.types/float");
    assert_eq!(BuiltInTypes::Double.as_const_str(), "io.statefun.types/double");
    assert_eq!(BuiltInTypes::String.as_const_str(), "io.statefun.types/string");

    assert_eq!(from_str(bool_typename()), BuiltInTypes::Boolean);
    assert_eq!(from_str(int_typename()), BuiltInTypes::Integer);
    assert_eq!(from_str(long_typename()), BuiltInTypes::Long);
    assert_eq!(from_str(string_typename()), BuiltInTypes::String);

    assert_eq!(TypeSpec::<bool>::new().typename, "io.statefun.types/bool");
    assert_eq!(TypeSpec::<i64>::new().typename, "io.statefun.types/long");
}

#[test]
fn state_message_reads_stored_values() {
    let stored = StateMessage::new(TypedValue::new(
        int_typename(),
        7i32.serialize(int_typename()).unwrap(),
    ));
    assert_eq!(stored.get::<i32>().unwrap(), 7);

    let broken = StateMessage::new(TypedValue::new(int_typename(), vec![13, 1]));
    assert!(broken.get::<i32>().is_none());
}

#[test]
fn value_spec_equality_ignores_expiration() {
    let never = ValueSpecBase::new("cell", "io.statefun.types/int", Expiration::never());
    let timed = ValueSpecBase::new(
        "cell",
        "io.statefun.types/int",
        Expiration::new(ExpirationType::AfterWrite, 5000),
    );
    assert_eq!(never, timed);
    let other_name = ValueSpecBase::new("other", "io.statefun.types/int", Expiration::never());
    assert_ne!(never, other_name);
    let other_type = ValueSpecBase::new("cell", "io.statefun.types/long", Expiration::never());
    assert_ne!(never, other_type);
}
