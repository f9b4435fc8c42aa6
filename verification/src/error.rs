//! Errors that can occur during function invocation.

use vstd::prelude::*;

use crate::function_type::{FunctionType, FunctionTypeView};
use crate::missing_states::MissingStates;
use crate::value_spec::ValueSpecBaseView;

verus! {

/// The mathematical value of an [`InvocationError`].
pub enum InvocationErrorView {
    /// No function was registered for the named function type.
    FunctionNotFound(FunctionTypeView),
    /// The named cells are declared by the function but missing from the
    /// batch snapshot.
    MissingStates(Seq<ValueSpecBaseView>),
}

/// Errors that can occur during function invocation.
#[derive(Debug)]
pub enum InvocationError {
    /// There was no function registered for the given `FunctionType`.
    FunctionNotFound(FunctionType),
    /// State cells declared by the function are missing from the batch
    /// snapshot; the coordinator should allocate them and call again.
    MissingStates(MissingStates),
}

impl View for InvocationError {
    type V = InvocationErrorView;

    open spec fn view(&self) -> InvocationErrorView {
        match self {
            InvocationError::FunctionNotFound(ft) => InvocationErrorView::FunctionNotFound(ft@),
            InvocationError::MissingStates(ms) => InvocationErrorView::MissingStates(ms@),
        }
    }
}

} // verus!
