//! Declarations of named persistent state cells.

use core::marker::PhantomData;

use vstd::prelude::*;

use crate::expiration::Expiration;
use crate::traits::{Serializable, TypeName};

verus! {

/// The mathematical value of a [`ValueSpecBase`].
pub struct ValueSpecBaseView {
    /// Name of the state cell.
    pub name: Seq<char>,
    /// Type name of the values stored in the cell.
    pub typename: Seq<char>,
    /// Expiration policy of the cell.
    pub expiration: Expiration,
}

/// The untyped declaration of a named persistent state cell: its name, the
/// type name of its values, and its expiration policy.
///
/// Two declarations denote the same cell exactly when name and type name are
/// equal; the expiration policy is metadata reported to the coordinator and
/// is not part of a cell's identity.
#[derive(Debug)]
pub struct ValueSpecBase {
    /// Name of the state cell.
    pub name: String,
    /// Type name of the values stored in the cell.
    pub typename: String,
    /// Expiration policy of the cell.
    pub expiration: Expiration,
}

impl View for ValueSpecBase {
    type V = ValueSpecBaseView;

    open spec fn view(&self) -> ValueSpecBaseView {
        ValueSpecBaseView {
            name: self.name@,
            typename: self.typename@,
            expiration: self.expiration,
        }
    }
}

impl PartialEq for ValueSpecBase {
    /// Two declarations denote the same cell exactly when name and type name
    /// are equal; the expiration policy is metadata and plays no part.
    fn eq(&self, other: &ValueSpecBase) -> (r: bool) {
        self.name == other.name && self.typename == other.typename
    }
}

impl vstd::std_specs::cmp::PartialEqSpecImpl for ValueSpecBase {
    open spec fn obeys_eq_spec() -> bool {
        true
    }

    open spec fn eq_spec(&self, other: &ValueSpecBase) -> bool {
        self@.name == other@.name && self@.typename == other@.typename
    }
}

impl Clone for ValueSpecBase {
    /// Returns an equal declaration.
    fn clone(&self) -> (r: ValueSpecBase)
        ensures
            r == *self,
    {
        ValueSpecBase {
            name: self.name.clone(),
            typename: self.typename.clone(),
            expiration: self.expiration,
        }
    }
}

impl ValueSpecBase {
    /// Creates a new untyped state cell declaration.
    pub fn new(name: &str, typename: &str, expiration: Expiration) -> (r: ValueSpecBase)
        ensures
            r@ == (ValueSpecBaseView { name: name@, typename: typename@, expiration }),
    {
        ValueSpecBase {
            name: name.to_owned(),
            typename: typename.to_owned(),
            expiration,
        }
    }
}

/// Declares a named persistent state cell holding values of semantic type
/// `T`. Client code uses this in calls to `Context::get_state` as a type-safe
/// way of looking up existing state.
pub struct ValueSpec<T> {
    /// The untyped declaration of the cell.
    pub base: ValueSpecBase,
    /// Marker tying the declaration to its semantic type.
    pub phantom: PhantomData<T>,
}

impl<T> View for ValueSpec<T> {
    type V = ValueSpecBaseView;

    open spec fn view(&self) -> ValueSpecBaseView {
        self.base@
    }
}

impl<T: Serializable<T> + TypeName> ValueSpec<T> {
    /// Declares a cell of the given name whose values have type `T`, with the
    /// given expiration policy. The cell's type name is `T`'s type name.
    pub fn new(name: &str, expiration: Expiration) -> (r: ValueSpec<T>)
        ensures
            r@ == (ValueSpecBaseView { name: name@, typename: T::typename_spec(), expiration }),
    {
        ValueSpec {
            base: ValueSpecBase::new(name, T::get_typename(), expiration),
            phantom: PhantomData,
        }
    }
}

impl<T> From<ValueSpec<T>> for ValueSpecBase {
    /// Forgets the semantic type of a cell declaration.
    fn from(val: ValueSpec<T>) -> (r: ValueSpecBase) {
        val.base
    }
}

impl<T> vstd::std_specs::convert::FromSpecImpl<ValueSpec<T>> for ValueSpecBase {
    open spec fn obeys_from_spec() -> bool {
        true
    }

    open spec fn from_spec(val: ValueSpec<T>) -> ValueSpecBase {
        val.base
    }
}

} // verus!
