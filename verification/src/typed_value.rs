//! The wire form of any message or stored state value.

use vstd::prelude::*;

verus! {

/// The mathematical value of a [`TypedValue`].
pub struct TypedValueView {
    /// The type name carried with the payload.
    pub typename: Seq<char>,
    /// Whether the payload carries a value at all.
    pub has_value: bool,
    /// The payload bytes.
    pub value: Seq<u8>,
}

/// A payload paired with the name of its semantic type.
///
/// Every message and every stored state value travels in this form. The
/// worker never infers a payload's type: it only pairs bytes with the type
/// name carried beside them. An empty byte string means "allocated but
/// empty".
#[derive(Clone, Debug, PartialEq)]
pub struct TypedValue {
    /// Globally unique name of the semantic type of the payload.
    pub typename: String,
    /// Whether the payload carries a value at all.
    pub has_value: bool,
    /// The payload bytes.
    pub value: Vec<u8>,
}

impl View for TypedValue {
    type V = TypedValueView;

    open spec fn view(&self) -> TypedValueView {
        TypedValueView { typename: self.typename@, has_value: self.has_value, value: self.value@ }
    }
}

impl TypedValue {
    /// Creates a `TypedValue` that carries the given payload bytes.
    pub fn new(typename: String, value: Vec<u8>) -> (r: TypedValue)
        ensures
            r@ == (TypedValueView { typename: typename@, has_value: true, value: value@ }),
    {
        TypedValue { typename, has_value: true, value }
    }

    /// Returns a copy of this `TypedValue`.
    pub fn duplicate(&self) -> (r: TypedValue)
        ensures
            r@ == self@,
    {
        TypedValue {
            typename: self.typename.clone(),
            has_value: self.has_value,
            value: clone_bytes(&self.value),
        }
    }
}

/// Returns a copy of the given byte vector.
pub fn clone_bytes(v: &Vec<u8>) -> (r: Vec<u8>)
    ensures
        r@ == v@,
{
    let r = v.clone();
    proof {
        assert(r@ =~= v@);
    }
    r
}

} // verus!
