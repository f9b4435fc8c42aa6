//! Messages as received by a stateful function.

use vstd::prelude::*;
use vstd::string::StringExecFns;

use crate::traits::{Serializable, TypeName};
use crate::typed_value::{TypedValue, TypedValueView};

verus! {

/// The error text produced when a message is read as a type other than the
/// one its payload carries.
pub open spec fn incompatible_types_msg(expected: Seq<char>, payload: Seq<char>) -> Seq<char> {
    "Incompatible types. Expected: "@ + expected + " Payload: "@ + payload
}

/// Contains a message as received by a stateful function: the payload bytes
/// together with the name of their semantic type.
#[derive(Debug)]
pub struct Message {
    typed_value: TypedValue,
}

impl View for Message {
    type V = TypedValueView;

    closed spec fn view(&self) -> TypedValueView {
        self.typed_value@
    }
}

impl Message {
    /// Wraps the given payload as a message.
    pub fn new(typed_value: TypedValue) -> (r: Message)
        ensures
            r@ == typed_value@,
    {
        Message { typed_value }
    }

    /// Check whether the received message is of the specified type.
    pub fn is<T: TypeName>(&self) -> (r: bool)
        ensures
            r == (self@.typename == T::typename_spec()),
    {
        let expected: String = T::get_typename().to_owned();
        self.typed_value.typename == expected
    }

    /// Attempt to deserialize the message to the provided type. If the type
    /// name of the message does not match the provided type, or if
    /// deserialization fails, an error is returned.
    pub fn get<T: Serializable<T> + TypeName>(&self) -> (r: Result<T, String>)
        ensures
            self@.typename != T::typename_spec() ==> r is Err && r->Err_0@
                == incompatible_types_msg(T::typename_spec(), self@.typename),
            self@.typename == T::typename_spec() ==> {
                let d = T::deser_spec(self@.typename, self@.value);
                &&& r is Ok <==> d is Ok
                &&& r is Ok ==> r->Ok_0@ == d->Ok_0
                &&& r is Err ==> r->Err_0@ == d->Err_0
            },
    {
        if !self.is::<T>() {
            let mut msg = String::new();
            msg.append("Incompatible types. Expected: ");
            msg.append(T::get_typename());
            msg.append(" Payload: ");
            msg.append(self.typed_value.typename.as_str());
            proof {
                assert(msg@ =~= incompatible_types_msg(T::typename_spec(), self@.typename));
            }
            return Err(msg);
        }

        T::deserialize(self.typed_value.typename.clone(), &self.typed_value.value)
    }

    /// Get the underlying type name of this message.
    pub fn get_type(&self) -> (r: String)
        ensures
            r@ == self@.typename,
    {
        self.typed_value.typename.clone()
    }
}

/// A stored state value as handed back by the coordinator: payload bytes
/// together with the name of their semantic type.
#[derive(Debug)]
pub struct StateMessage {
    typed_value: TypedValue,
}

impl View for StateMessage {
    type V = TypedValueView;

    closed spec fn view(&self) -> TypedValueView {
        self.typed_value@
    }
}

impl StateMessage {
    /// Wraps the given payload as a state message.
    pub fn new(typed_value: TypedValue) -> (r: StateMessage)
        ensures
            r@ == typed_value@,
    {
        StateMessage { typed_value }
    }

    /// Attempt to deserialize the stored value to the provided type. Returns
    /// `None` when the payload does not decode as `T`.
    pub fn get<T: Serializable<T>>(&self) -> (r: Option<T>)
        ensures
            ({
                let d = T::deser_spec(self@.typename, self@.value);
                &&& r is Some <==> d is Ok
                &&& r is Some ==> r->0@ == d->Ok_0
            }),
    {
        match T::deserialize(self.typed_value.typename.clone(), &self.typed_value.value) {
            Ok(v) => Some(v),
            Err(_) => None,
        }
    }
}

} // verus!
