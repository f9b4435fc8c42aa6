//! Type tags: a value carrying the well-known type name of a message type.

use core::marker::PhantomData;

use vstd::prelude::*;

use crate::traits::Serializable;

verus! {

/// Returns the fully qualified type name of a message type, for example
/// `io.statefun.types/bool` for native booleans.
pub trait GetTypename {
    /// The fully qualified type name as a mathematical value.
    spec fn typename_spec() -> Seq<char>;

    /// Returns the fully qualified name of this type.
    fn get_typename() -> (r: &'static str)
        ensures
            r@ == Self::typename_spec(),
    ;
}

impl GetTypename for bool {
    open spec fn typename_spec() -> Seq<char> {
        "io.statefun.types/bool"@
    }

    fn get_typename() -> (r: &'static str)
        ensures
            r@ == Self::typename_spec(),
    {
        "io.statefun.types/bool"
    }
}

impl GetTypename for i32 {
    open spec fn typename_spec() -> Seq<char> {
        "io.statefun.types/int"@
    }

    fn get_typename() -> (r: &'static str)
        ensures
            r@ == Self::typename_spec(),
    {
        "io.statefun.types/int"
    }
}

impl GetTypename for i64 {
    open spec fn typename_spec() -> Seq<char> {
        "io.statefun.types/long"@
    }

    fn get_typename() -> (r: &'static str)
        ensures
            r@ == Self::typename_spec(),
    {
        "io.statefun.types/long"
    }
}

impl GetTypename for String {
    open spec fn typename_spec() -> Seq<char> {
        "io.statefun.types/string"@
    }

    fn get_typename() -> (r: &'static str)
        ensures
            r@ == Self::typename_spec(),
    {
        "io.statefun.types/string"
    }
}

/// A value standing for a message type: it carries the type's fully
/// qualified name.
#[derive(Debug)]
pub struct TypeSpec<T> {
    /// The fully qualified type name.
    pub typename: &'static str,
    /// Marker tying the tag to its message type.
    pub phantom: PhantomData<T>,
}

impl<T> View for TypeSpec<T> {
    type V = Seq<char>;

    open spec fn view(&self) -> Seq<char> {
        self.typename@
    }
}

impl<T: Serializable<T> + GetTypename> TypeSpec<T> {
    /// The type tag of `T`.
    pub fn new() -> (r: TypeSpec<T>)
        ensures
            r@ == T::typename_spec(),
    {
        TypeSpec { typename: T::get_typename(), phantom: PhantomData }
    }
}

} // verus!
