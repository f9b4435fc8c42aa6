//! The unique identity of an individual stateful function instance.

use vstd::prelude::*;

use crate::function_type::{FunctionType, FunctionTypeView};

verus! {

/// The mathematical value of an [`Address`].
pub struct AddressView {
    /// Identity of the class of functions addressed.
    pub function_type: FunctionTypeView,
    /// Identity of the instance within the class.
    pub id: Seq<char>,
}

/// The unique identity of an individual stateful function.
///
/// This comprises the function's [`FunctionType`] and a unique identifier
/// within the type. The function's type denotes the class of function to
/// invoke, while the unique identifier addresses the invocation to a specific
/// function instance. The identifier is opaque to the worker and never
/// interpreted.
#[derive(Debug, PartialEq)]
pub struct Address {
    /// `FunctionType` of the stateful function that this `Address` refers to.
    pub function_type: FunctionType,
    /// Unique id of the stateful function that this `Address` refers to.
    pub id: String,
}

impl View for Address {
    type V = AddressView;

    open spec fn view(&self) -> AddressView {
        AddressView { function_type: self.function_type@, id: self.id@ }
    }
}

impl Clone for Address {
    /// Returns an equal `Address`.
    fn clone(&self) -> (r: Address)
        ensures
            r == *self,
    {
        Address { function_type: self.function_type.clone(), id: self.id.clone() }
    }
}

impl Address {
    /// Creates a new `Address` from the given `FunctionType` and id.
    pub fn new(function_type: FunctionType, id: &str) -> (r: Address)
        ensures
            r@.function_type == function_type@,
            r@.id == id@,
    {
        Address { function_type, id: id.to_owned() }
    }
}

} // verus!
