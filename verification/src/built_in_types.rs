//! The built-in scalar types: their well-known type names on the wire.

use vstd::prelude::*;

use crate::traits::TypeName;

verus! {

/// The built-in scalar types for which the worker provides codecs that
/// interoperate with the coordinator's well-known wrapper messages.
#[derive(Clone, Copy, Debug, PartialEq, Eq, Structural)]
pub enum BuiltInTypes {
    /// A boolean.
    Boolean,
    /// A 32-bit signed integer.
    Integer,
    /// A 64-bit signed integer.
    Long,
    /// A 32-bit floating point number.
    Float,
    /// A 64-bit floating point number.
    Double,
    /// A string.
    String,
}

impl BuiltInTypes {
    /// The well-known type name of this built-in type.
    pub fn as_const_str(&self) -> (r: &'static str)
        ensures
            r@ == match self {
                BuiltInTypes::Boolean => "io.statefun.types/bool"@,
                BuiltInTypes::Integer => "io.statefun.types/int"@,
                BuiltInTypes::Long => "io.statefun.types/long"@,
                BuiltInTypes::Float => "io.statefun.types/float"@,
                BuiltInTypes::Double => "io.statefun.types/double"@,
                BuiltInTypes::String => "io.statefun.types/string"@,
            },
    {
        match self {
            BuiltInTypes::Boolean => "io.statefun.types/bool",
            BuiltInTypes::Integer => "io.statefun.types/int",
            BuiltInTypes::Long => "io.statefun.types/long",
            BuiltInTypes::Float => "io.statefun.types/float",
            BuiltInTypes::Double => "io.statefun.types/double",
            BuiltInTypes::String => "io.statefun.types/string",
        }
    }
}

/// The built-in type a well-known type name denotes. Only the six well-known
/// names are meaningful; asking for any other name is a programming error.
pub fn from_str(input: String) -> (r: BuiltInTypes)
    requires
        input@ == "io.statefun.types/bool"@ || input@ == "io.statefun.types/int"@ || input@
            == "io.statefun.types/long"@ || input@ == "io.statefun.types/float"@ || input@
            == "io.statefun.types/double"@ || input@ == "io.statefun.types/string"@,
    ensures
        input@ == "io.statefun.types/bool"@ ==> r == BuiltInTypes::Boolean,
        input@ == "io.statefun.types/int"@ ==> r == BuiltInTypes::Integer,
        input@ == "io.statefun.types/long"@ ==> r == BuiltInTypes::Long,
        input@ == "io.statefun.types/float"@ ==> r == BuiltInTypes::Float,
        input@ == "io.statefun.types/double"@ ==> r == BuiltInTypes::Double,
        input@ == "io.statefun.types/string"@ ==> r == BuiltInTypes::String,
{
    proof {
        reveal_strlit("io.statefun.types/bool");
        reveal_strlit("io.statefun.types/int");
        reveal_strlit("io.statefun.types/long");
        reveal_strlit("io.statefun.types/float");
        reveal_strlit("io.statefun.types/double");
        reveal_strlit("io.statefun.types/string");
        assert("io.statefun.types/bool"@.len() == 22);
        assert("io.statefun.types/int"@.len() == 21);
        assert("io.statefun.types/long"@.len() == 22);
        assert("io.statefun.types/float"@.len() == 23);
        assert("io.statefun.types/double"@.len() == 24);
        assert("io.statefun.types/string"@.len() == 24);
        assert("io.statefun.types/bool"@[18] == 'b');
        assert("io.statefun.types/long"@[18] == 'l');
        assert("io.statefun.types/double"@[18] == 'd');
        assert("io.statefun.types/string"@[18] == 's');
        assert("io.statefun.types/bool"@ != "io.statefun.types/int"@);
        assert("io.statefun.types/bool"@ != "io.statefun.types/long"@);
        assert("io.statefun.types/bool"@ != "io.statefun.types/float"@);
        assert("io.statefun.types/bool"@ != "io.statefun.types/double"@);
        assert("io.statefun.types/bool"@ != "io.statefun.types/string"@);
        assert("io.statefun.types/int"@ != "io.statefun.types/long"@);
        assert("io.statefun.types/int"@ != "io.statefun.types/float"@);
        assert("io.statefun.types/int"@ != "io.statefun.types/double"@);
        assert("io.statefun.types/int"@ != "io.statefun.types/string"@);
        assert("io.statefun.types/long"@ != "io.statefun.types/float"@);
        assert("io.statefun.types/long"@ != "io.statefun.types/double"@);
        assert("io.statefun.types/long"@ != "io.statefun.types/string"@);
        assert("io.statefun.types/float"@ != "io.statefun.types/double"@);
        assert("io.statefun.types/float"@ != "io.statefun.types/string"@);
        assert("io.statefun.types/double"@ != "io.statefun.types/string"@);
    }
    if input == "io.statefun.types/bool".to_owned() {
        BuiltInTypes::Boolean
    } else if input == "io.statefun.types/int".to_owned() {
        BuiltInTypes::Integer
    } else if input == "io.statefun.types/long".to_owned() {
        BuiltInTypes::Long
    } else if input == "io.statefun.types/float".to_owned() {
        BuiltInTypes::Float
    } else if input == "io.statefun.types/double".to_owned() {
        BuiltInTypes::Double
    } else {
        BuiltInTypes::String
    }
}

impl TypeName for bool {
    open spec fn typename_spec() -> Seq<char> {
        "io.statefun.types/bool"@
    }

    fn get_typename() -> (r: &'static str)
        ensures
            r@ == Self::typename_spec(),
    {
        "io.statefun.types/bool"
    }
}

impl TypeName for i32 {
    open spec fn typename_spec() -> Seq<char> {
        "io.statefun.types/int"@
    }

    fn get_typename() -> (r: &'static str)
        ensures
            r@ == Self::typename_spec(),
    {
        "io.statefun.types/int"
    }
}

impl TypeName for i64 {
    open spec fn typename_spec() -> Seq<char> {
        "io.statefun.types/long"@
    }

    fn get_typename() -> (r: &'static str)
        ensures
            r@ == Self::typename_spec(),
    {
        "io.statefun.types/long"
    }
}

impl TypeName for String {
    open spec fn typename_spec() -> Seq<char> {
        "io.statefun.types/string"@
    }

    fn get_typename() -> (r: &'static str)
        ensures
            r@ == Self::typename_spec(),
    {
        "io.statefun.types/string"
    }
}

} // verus!
