//! The shapes of the two envelopes exchanged with the coordinator: the
//! invocation batch delivered to the worker and the response describing the
//! side effects of running it.

use vstd::prelude::*;

use crate::address::{Address, AddressView};
use crate::expiration::{Expiration, ExpirationType};
use crate::typed_value::{TypedValue, TypedValueView};
use crate::views::seq_view;

verus! {

/// The mathematical value of a [`PersistedValue`].
pub struct PersistedValueView {
    /// Name of the state cell.
    pub state_name: Seq<char>,
    /// The stored payload.
    pub state_value: TypedValueView,
}

/// One state cell of the snapshot delivered with a batch: the cell name and
/// the stored payload. The payload's type name may be blank when the cell was
/// allocated but never written.
#[derive(Debug, PartialEq)]
pub struct PersistedValue {
    /// Name of the state cell.
    pub state_name: String,
    /// The stored payload.
    pub state_value: TypedValue,
}

impl View for PersistedValue {
    type V = PersistedValueView;

    open spec fn view(&self) -> PersistedValueView {
        PersistedValueView { state_name: self.state_name@, state_value: self.state_value@ }
    }
}

impl PersistedValue {
    /// Creates a snapshot cell from its parts.
    pub fn new(state_name: String, state_value: TypedValue) -> (r: PersistedValue)
        ensures
            r@ == (PersistedValueView { state_name: state_name@, state_value: state_value@ }),
    {
        PersistedValue { state_name, state_value }
    }
}

/// The mathematical value of an [`Invocation`].
pub struct InvocationView {
    /// Address of the caller; all-empty when the message came from an
    /// ingress.
    pub caller: AddressView,
    /// The message to hand to the function.
    pub argument: TypedValueView,
}

/// One queued invocation of a batch: the caller and the message argument.
#[derive(Debug, PartialEq)]
pub struct Invocation {
    /// Address of the caller; all-empty when the message came from an
    /// ingress.
    pub caller: Address,
    /// The message to hand to the function.
    pub argument: TypedValue,
}

impl View for Invocation {
    type V = InvocationView;

    open spec fn view(&self) -> InvocationView {
        InvocationView { caller: self.caller@, argument: self.argument@ }
    }
}

impl Invocation {
    /// Creates a queued invocation from its parts.
    pub fn new(caller: Address, argument: TypedValue) -> (r: Invocation)
        ensures
            r@ == (InvocationView { caller: caller@, argument: argument@ }),
    {
        Invocation { caller, argument }
    }
}

/// The mathematical value of a [`ToFunction`].
pub struct ToFunctionView {
    /// The batch's target instance.
    pub target: AddressView,
    /// The snapshot of the target's persistent state.
    pub state: Seq<PersistedValueView>,
    /// The queued invocations, in delivery order.
    pub invocations: Seq<InvocationView>,
}

/// One invocation batch as delivered by the coordinator: the target instance,
/// a snapshot of its persistent state, and the queued invocations in order.
#[derive(Debug, PartialEq)]
pub struct ToFunction {
    /// The batch's target instance.
    pub target: Address,
    /// The snapshot of the target's persistent state.
    pub state: Vec<PersistedValue>,
    /// The queued invocations, in delivery order.
    pub invocations: Vec<Invocation>,
}

impl View for ToFunction {
    type V = ToFunctionView;

    open spec fn view(&self) -> ToFunctionView {
        ToFunctionView {
            target: self.target@,
            state: seq_view(self.state@),
            invocations: seq_view(self.invocations@),
        }
    }
}

impl ToFunction {
    /// Creates a batch from its parts.
    pub fn new(target: Address, state: Vec<PersistedValue>, invocations: Vec<Invocation>) -> (r:
        ToFunction)
        ensures
            r@ == (ToFunctionView {
                target: target@,
                state: seq_view(state@),
                invocations: seq_view(invocations@),
            }),
    {
        ToFunction { target, state, invocations }
    }
}

/// The mathematical value of a [`FromFunctionInvocation`].
pub struct FromFunctionInvocationView {
    /// Target of the message.
    pub target: AddressView,
    /// The message payload.
    pub argument: TypedValueView,
}

/// One outgoing message of a response.
#[derive(Debug, PartialEq)]
pub struct FromFunctionInvocation {
    /// Target of the message.
    pub target: Address,
    /// The message payload.
    pub argument: TypedValue,
}

impl View for FromFunctionInvocation {
    type V = FromFunctionInvocationView;

    open spec fn view(&self) -> FromFunctionInvocationView {
        FromFunctionInvocationView { target: self.target@, argument: self.argument@ }
    }
}

/// The mathematical value of a [`FromFunctionDelayedInvocation`].
pub struct FromFunctionDelayedInvocationView {
    /// Whether this entry cancels an earlier delayed message instead of
    /// scheduling one.
    pub is_cancellation_request: bool,
    /// Target of the delayed message; absent on a cancellation.
    pub target: Option<AddressView>,
    /// Delay in milliseconds before delivery.
    pub delay_in_ms: u64,
    /// Token identifying the delayed message for later cancellation.
    pub cancellation_token: Seq<char>,
    /// The message payload; absent on a cancellation.
    pub argument: Option<TypedValueView>,
}

/// One delayed message or cancellation of a response.
#[derive(Debug, PartialEq)]
pub struct FromFunctionDelayedInvocation {
    /// Whether this entry cancels an earlier delayed message instead of
    /// scheduling one.
    pub is_cancellation_request: bool,
    /// Target of the delayed message; absent on a cancellation.
    pub target: Option<Address>,
    /// Delay in milliseconds before delivery.
    pub delay_in_ms: u64,
    /// Token identifying the delayed message for later cancellation.
    pub cancellation_token: String,
    /// The message payload; absent on a cancellation.
    pub argument: Option<TypedValue>,
}

impl View for FromFunctionDelayedInvocation {
    type V = FromFunctionDelayedInvocationView;

    open spec fn view(&self) -> FromFunctionDelayedInvocationView {
        FromFunctionDelayedInvocationView {
            is_cancellation_request: self.is_cancellation_request,
            target: match self.target {
                Option::Some(ref a) => Some(a@),
                Option::None => None,
            },
            delay_in_ms: self.delay_in_ms,
            cancellation_token: self.cancellation_token@,
            argument: match self.argument {
                Option::Some(ref v) => Some(v@),
                Option::None => None,
            },
        }
    }
}

/// The mathematical value of an [`EgressMessage`].
pub struct EgressMessageView {
    /// Namespace of the egress.
    pub egress_namespace: Seq<char>,
    /// Name of the egress within its namespace.
    pub egress_type: Seq<char>,
    /// The record payload.
    pub argument: TypedValueView,
}

/// One egress record of a response.
#[derive(Debug, PartialEq)]
pub struct EgressMessage {
    /// Namespace of the egress.
    pub egress_namespace: String,
    /// Name of the egress within its namespace.
    pub egress_type: String,
    /// The record payload.
    pub argument: TypedValue,
}

impl View for EgressMessage {
    type V = EgressMessageView;

    open spec fn view(&self) -> EgressMessageView {
        EgressMessageView {
            egress_namespace: self.egress_namespace@,
            egress_type: self.egress_type@,
            argument: self.argument@,
        }
    }
}

/// The wire encoding of an expiration policy: a mode and a millisecond count.
#[derive(Clone, Copy, Debug, PartialEq, Eq, Structural)]
pub enum ExpireMode {
    /// The cell never expires.
    NoExpiration,
    /// The timer resets after each read or write.
    ExpireAfterInvoke,
    /// The timer resets after each write.
    ExpireAfterWrite,
}

/// The expiration policy of a declared cell as reported to the coordinator.
#[derive(Clone, Copy, Debug, PartialEq, Eq, Structural)]
pub struct ExpirationSpec {
    /// When the time-to-live timer is reset.
    pub mode: ExpireMode,
    /// Time to live in milliseconds; zero when the mode says never.
    pub expire_after_millis: u64,
}

impl View for ExpirationSpec {
    type V = ExpirationSpec;

    open spec fn view(&self) -> ExpirationSpec {
        *self
    }
}

/// The wire encoding of the given expiration policy. A policy without an
/// expiration type reports the mode alone, with a zero millisecond count.
pub open spec fn spec_expiration_spec_of(e: Expiration) -> ExpirationSpec {
    match e.expiration_type {
        Option::Some(ExpirationType::AfterInvoke) => ExpirationSpec {
            mode: ExpireMode::ExpireAfterInvoke,
            expire_after_millis: e.time_to_live_ms,
        },
        Option::Some(ExpirationType::AfterWrite) => ExpirationSpec {
            mode: ExpireMode::ExpireAfterWrite,
            expire_after_millis: e.time_to_live_ms,
        },
        Option::None => ExpirationSpec { mode: ExpireMode::NoExpiration, expire_after_millis: 0 },
    }
}

/// Computes the wire encoding of the given expiration policy.
pub fn expiration_spec_of(e: Expiration) -> (r: ExpirationSpec)
    ensures
        r == spec_expiration_spec_of(e),
{
    match e.expiration_type {
        Option::Some(ExpirationType::AfterInvoke) => ExpirationSpec {
            mode: ExpireMode::ExpireAfterInvoke,
            expire_after_millis: e.time_to_live_ms,
        },
        Option::Some(ExpirationType::AfterWrite) => ExpirationSpec {
            mode: ExpireMode::ExpireAfterWrite,
            expire_after_millis: e.time_to_live_ms,
        },
        Option::None => ExpirationSpec { mode: ExpireMode::NoExpiration, expire_after_millis: 0 },
    }
}

/// The mathematical value of a [`PersistedValueSpec`].
pub struct PersistedValueSpecView {
    /// Name of the declared cell.
    pub state_name: Seq<char>,
    /// The cell's expiration policy on the wire.
    pub expiration_spec: ExpirationSpec,
    /// Type name of the values the cell stores.
    pub type_typename: Seq<char>,
}

/// One declared-but-missing cell reported back to the coordinator so that it
/// allocates the cell before delivering the batch again.
#[derive(Debug, PartialEq)]
pub struct PersistedValueSpec {
    /// Name of the declared cell.
    pub state_name: String,
    /// The cell's expiration policy on the wire.
    pub expiration_spec: ExpirationSpec,
    /// Type name of the values the cell stores.
    pub type_typename: String,
}

impl View for PersistedValueSpec {
    type V = PersistedValueSpecView;

    open spec fn view(&self) -> PersistedValueSpecView {
        PersistedValueSpecView {
            state_name: self.state_name@,
            expiration_spec: self.expiration_spec,
            type_typename: self.type_typename@,
        }
    }
}

/// The kinds of state mutation a response can carry.
#[derive(Clone, Copy, Debug, PartialEq, Eq, Structural)]
pub enum MutationType {
    /// The cell's value is removed.
    Delete,
    /// The cell's value is replaced.
    Modify,
}

/// The mathematical value of a [`PersistedValueMutation`].
pub struct PersistedValueMutationView {
    /// Whether the cell is deleted or modified.
    pub mutation_type: MutationType,
    /// Name of the cell.
    pub state_name: Seq<char>,
    /// The new payload; absent on a deletion.
    pub state_value: Option<TypedValueView>,
}

/// One state mutation of a response.
#[derive(Debug, PartialEq)]
pub struct PersistedValueMutation {
    /// Whether the cell is deleted or modified.
    pub mutation_type: MutationType,
    /// Name of the cell.
    pub state_name: String,
    /// The new payload; absent on a deletion.
    pub state_value: Option<TypedValue>,
}

impl View for PersistedValueMutation {
    type V = PersistedValueMutationView;

    open spec fn view(&self) -> PersistedValueMutationView {
        PersistedValueMutationView {
            mutation_type: self.mutation_type,
            state_name: self.state_name@,
            state_value: match self.state_value {
                Option::Some(ref v) => Some(v@),
                Option::None => None,
            },
        }
    }
}

/// The mathematical value of an [`InvocationResponse`].
pub struct InvocationResponseView {
    /// Outgoing messages, in the order the effects recorded them.
    pub outgoing_messages: Seq<FromFunctionInvocationView>,
    /// Delayed messages and cancellations, in the order the effects recorded
    /// them.
    pub delayed_invocations: Seq<FromFunctionDelayedInvocationView>,
    /// Egress records, in the order the effects recorded them.
    pub outgoing_egresses: Seq<EgressMessageView>,
    /// The coalesced state mutations, at most one per cell name.
    pub state_mutations: Seq<PersistedValueMutationView>,
}

/// The response to a batch whose invocations were executed: the side effects
/// for the coordinator to enact.
#[derive(Debug, PartialEq)]
pub struct InvocationResponse {
    /// Outgoing messages, in the order the effects recorded them.
    pub outgoing_messages: Vec<FromFunctionInvocation>,
    /// Delayed messages and cancellations, in the order the effects recorded
    /// them.
    pub delayed_invocations: Vec<FromFunctionDelayedInvocation>,
    /// Egress records, in the order the effects recorded them.
    pub outgoing_egresses: Vec<EgressMessage>,
    /// The coalesced state mutations, at most one per cell name.
    pub state_mutations: Vec<PersistedValueMutation>,
}

impl View for InvocationResponse {
    type V = InvocationResponseView;

    open spec fn view(&self) -> InvocationResponseView {
        InvocationResponseView {
            outgoing_messages: seq_view(self.outgoing_messages@),
            delayed_invocations: seq_view(self.delayed_invocations@),
            outgoing_egresses: seq_view(self.outgoing_egresses@),
            state_mutations: seq_view(self.state_mutations@),
        }
    }
}

/// The mathematical value of an [`IncompleteInvocationContext`].
pub struct IncompleteInvocationContextView {
    /// The declared cells the coordinator must allocate, in declaration
    /// order.
    pub missing_values: Seq<PersistedValueSpecView>,
}

/// The response to a batch that could not run because declared state cells
/// were missing from the snapshot: the declarations the coordinator must
/// allocate before delivering the batch again. No invocation was executed.
#[derive(Debug, PartialEq)]
pub struct IncompleteInvocationContext {
    /// The declared cells the coordinator must allocate, in declaration
    /// order.
    pub missing_values: Vec<PersistedValueSpec>,
}

impl View for IncompleteInvocationContext {
    type V = IncompleteInvocationContextView;

    open spec fn view(&self) -> IncompleteInvocationContextView {
        IncompleteInvocationContextView { missing_values: seq_view(self.missing_values@) }
    }
}

/// The mathematical value of a [`FromFunction`].
pub enum FromFunctionView {
    /// The batch ran; here are its effects.
    InvocationResponse(InvocationResponseView),
    /// The batch did not run; here are the cells to allocate first.
    IncompleteInvocationContext(IncompleteInvocationContextView),
}

/// The worker's reply to one batch: either the effects of running it, or the
/// list of declared state cells the coordinator must allocate first. Never
/// both, never neither.
#[derive(Debug, PartialEq)]
pub enum FromFunction {
    /// The batch ran; here are its effects.
    InvocationResponse(InvocationResponse),
    /// The batch did not run; here are the cells to allocate first.
    IncompleteInvocationContext(IncompleteInvocationContext),
}

impl View for FromFunction {
    type V = FromFunctionView;

    open spec fn view(&self) -> FromFunctionView {
        match self {
            FromFunction::InvocationResponse(r) => FromFunctionView::InvocationResponse(r@),
            FromFunction::IncompleteInvocationContext(c) =>
                FromFunctionView::IncompleteInvocationContext(c@),
        }
    }
}

} // verus!
