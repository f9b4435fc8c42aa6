//! Logical identity of a class of stateful functions.

use vstd::prelude::*;

verus! {

/// The mathematical value of a [`FunctionType`]: the two identifying strings.
pub struct FunctionTypeView {
    /// Namespace of the function type.
    pub namespace: Seq<char>,
    /// Name of the function type within its namespace.
    pub name: Seq<char>,
}

/// A reference to a class of stateful functions, consisting of a namespace and
/// a name.
///
/// A function's type is part of a function's address and serves as the key
/// under which a handler is registered in the registry. Equality is
/// structural.
#[derive(Debug)]
pub struct FunctionType {
    namespace: String,
    name: String,
}

impl Clone for FunctionType {
    /// Returns an equal `FunctionType`.
    fn clone(&self) -> (r: FunctionType)
        ensures
            r == *self,
    {
        FunctionType { namespace: self.namespace.clone(), name: self.name.clone() }
    }
}

impl View for FunctionType {
    type V = FunctionTypeView;

    closed spec fn view(&self) -> FunctionTypeView {
        FunctionTypeView { namespace: self.namespace@, name: self.name@ }
    }
}

impl FunctionType {
    /// Creates a new `FunctionType` from the given namespace and name.
    pub fn new(namespace: &str, name: &str) -> (r: FunctionType)
        ensures
            r@.namespace == namespace@,
            r@.name == name@,
    {
        FunctionType { namespace: namespace.to_owned(), name: name.to_owned() }
    }

    /// Get the namespace of this function type.
    pub fn get_namespace(&self) -> (r: String)
        ensures
            r@ == self@.namespace,
    {
        self.namespace.clone()
    }

    /// Get the name of this function type.
    pub fn get_name(&self) -> (r: String)
        ensures
            r@ == self@.name,
    {
        self.name.clone()
    }
}

impl PartialEq for FunctionType {
    fn eq(&self, other: &FunctionType) -> (r: bool) {
        self.namespace == other.namespace && self.name == other.name
    }
}

impl vstd::std_specs::cmp::PartialEqSpecImpl for FunctionType {
    open spec fn obeys_eq_spec() -> bool {
        true
    }

    open spec fn eq_spec(&self, other: &FunctionType) -> bool {
        self@ == other@
    }
}

impl Eq for FunctionType {}

} // verus!
