//! Marking declared state cells that the coordinator has not yet allocated.

use vstd::prelude::*;

use crate::value_spec::{ValueSpecBase, ValueSpecBaseView};
use crate::views::seq_view;

verus! {

/// Used to mark state cells declared by a function but missing from the
/// batch's snapshot. The collection is messaged back to the coordinator,
/// which should allocate the cells and deliver the same batch again.
#[derive(Debug, PartialEq)]
pub struct MissingStates {
    /// The declared cells that are missing.
    pub states: Vec<ValueSpecBase>,
}

impl View for MissingStates {
    type V = Seq<ValueSpecBaseView>;

    open spec fn view(&self) -> Seq<ValueSpecBaseView> {
        seq_view(self.states@)
    }
}

impl MissingStates {
    /// Creates a collection of the given missing cell declarations.
    pub fn new(states: Vec<ValueSpecBase>) -> (r: MissingStates)
        ensures
            r@ == seq_view(states@),
    {
        MissingStates { states }
    }
}

/// A collection of state cell declarations gathered while checking a batch
/// against the cells its target function declares.
#[derive(Debug, PartialEq)]
pub struct MissingStateCollection {
    /// The gathered cell declarations.
    pub states: Vec<ValueSpecBase>,
}

impl View for MissingStateCollection {
    type V = Seq<ValueSpecBaseView>;

    open spec fn view(&self) -> Seq<ValueSpecBaseView> {
        seq_view(self.states@)
    }
}

impl MissingStateCollection {
    /// Creates a collection of the given cell declarations.
    pub fn new(states: Vec<ValueSpecBase>) -> (r: MissingStateCollection)
        ensures
            r@ == seq_view(states@),
    {
        MissingStateCollection { states }
    }
}

} // verus!
