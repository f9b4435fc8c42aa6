//! Identity of an external sink.

use vstd::prelude::*;

verus! {

/// The mathematical value of an [`EgressIdentifier`].
pub struct EgressIdentifierView {
    /// Namespace of the egress.
    pub namespace: Seq<char>,
    /// Name of the egress within its namespace.
    pub name: Seq<char>,
}

/// A reference to an _egress_, consisting of a namespace and a name.
///
/// This has to be used when sending messages to an egress as part of the
/// function's effects.
#[derive(Clone, Debug, PartialEq)]
pub struct EgressIdentifier {
    /// Namespace of the egress.
    pub namespace: String,
    /// Name of the egress within its namespace.
    pub name: String,
}

impl View for EgressIdentifier {
    type V = EgressIdentifierView;

    open spec fn view(&self) -> EgressIdentifierView {
        EgressIdentifierView { namespace: self.namespace@, name: self.name@ }
    }
}

impl EgressIdentifier {
    /// Creates a new `EgressIdentifier` from the given namespace and name.
    pub fn new(namespace: &str, name: &str) -> (r: EgressIdentifier)
        ensures
            r@.namespace == namespace@,
            r@.name == name@,
    {
        EgressIdentifier { namespace: namespace.to_owned(), name: name.to_owned() }
    }
}

} // verus!
