//! The capability interface of message and state types: a type name and a
//! serialization contract.

use vstd::prelude::*;

verus! {

/// Each message type must implement this trait, which returns the fully
/// qualified type name of the type, for example `io.statefun.types/bool` for
/// native booleans.
pub trait TypeName {
    /// The fully qualified type name as a mathematical value.
    spec fn typename_spec() -> Seq<char>;

    /// Returns the fully qualified name of this type, for example
    /// `com.my.company/user-type`.
    fn get_typename() -> (r: &'static str)
        ensures
            r@ == Self::typename_spec(),
    ;
}

/// Each message type must implement this trait, which defines how the type is
/// serialized and deserialized. Implementations for native booleans, integers
/// and strings are provided and serialize to the coordinator's well-known
/// wire formats, so that those types travel in a common cross-language
/// compatible form.
///
/// Both directions are deterministic: what an implementation returns is fixed
/// by the two specification functions, and callers' contracts speak of those.
pub trait Serializable<T: View>: View + Sized {
    /// What `serialize` returns: either the wire bytes of `self` or a
    /// domain error.
    spec fn ser_spec(&self, typename: Seq<char>) -> Result<Seq<u8>, Seq<char>>;

    /// What `deserialize` returns: either the value the buffer encodes or a
    /// domain error.
    spec fn deser_spec(typename: Seq<char>, buffer: Seq<u8>) -> Result<T::V, Seq<char>>;

    /// Serializes `self` to its wire bytes.
    fn serialize(&self, typename: String) -> (r: Result<Vec<u8>, String>)
        ensures
            r is Ok <==> self.ser_spec(typename@) is Ok,
            r is Ok ==> r->Ok_0@ == self.ser_spec(typename@)->Ok_0,
            r is Err ==> r->Err_0@ == self.ser_spec(typename@)->Err_0,
    ;

    /// Deserializes a value of type `T` from its wire bytes.
    fn deserialize(typename: String, buffer: &Vec<u8>) -> (r: Result<T, String>)
        ensures
            r is Ok <==> Self::deser_spec(typename@, buffer@) is Ok,
            r is Ok ==> r->Ok_0@ == Self::deser_spec(typename@, buffer@)->Ok_0,
            r is Err ==> r->Err_0@ == Self::deser_spec(typename@, buffer@)->Err_0,
    ;
}

} // verus!
