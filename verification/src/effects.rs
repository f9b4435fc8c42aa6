//! The side effects of one stateful function invocation.

use vstd::prelude::*;

use crate::address::{Address, AddressView};
use crate::egress_identifier::{EgressIdentifier, EgressIdentifierView};
use crate::traits::{Serializable, TypeName};
use crate::value_spec::{ValueSpec, ValueSpecBase, ValueSpecBaseView};
use crate::views::seq_view;

verus! {

/// The views of a list of recorded outgoing messages.
pub open spec fn invocation_tuple_views(s: Seq<(Address, String, Vec<u8>)>) -> Seq<
    (AddressView, Seq<char>, Seq<u8>),
> {
    Seq::new(s.len(), |i: int| (s[i].0@, s[i].1@, s[i].2@))
}

/// The views of a list of recorded egress records.
pub open spec fn egress_tuple_views(s: Seq<(EgressIdentifier, String, Vec<u8>)>) -> Seq<
    (EgressIdentifierView, Seq<char>, Seq<u8>),
> {
    Seq::new(s.len(), |i: int| (s[i].0@, s[i].1@, s[i].2@))
}

/// The mathematical value of a [`DelayedInvocation`].
pub struct DelayedInvocationView {
    /// Target of the delayed message.
    pub address: AddressView,
    /// Delay in milliseconds.
    pub delay_ms: u64,
    /// Token by which the message can later be cancelled.
    pub cancellation_token: Seq<char>,
    /// Type name of the payload.
    pub typename: Seq<char>,
    /// Payload bytes.
    pub bytes: Seq<u8>,
}

/// A message scheduled for delivery after a delay, together with the token by
/// which it can be cancelled while still undelivered.
#[derive(Debug)]
pub struct DelayedInvocation {
    /// Target of the delayed message.
    pub address: Address,
    /// Delay in milliseconds.
    pub delay_ms: u64,
    /// Token by which the message can later be cancelled.
    pub cancellation_token: String,
    /// Type name of the payload.
    pub typename: String,
    /// Payload bytes.
    pub bytes: Vec<u8>,
}

impl View for DelayedInvocation {
    type V = DelayedInvocationView;

    open spec fn view(&self) -> DelayedInvocationView {
        DelayedInvocationView {
            address: self.address@,
            delay_ms: self.delay_ms,
            cancellation_token: self.cancellation_token@,
            typename: self.typename@,
            bytes: self.bytes@,
        }
    }
}

impl DelayedInvocation {
    /// Creates a new delayed message from its parts.
    pub fn new(
        address: Address,
        delay_ms: u64,
        cancellation_token: String,
        typename: String,
        bytes: Vec<u8>,
    ) -> (r: DelayedInvocation)
        ensures
            r@ == (DelayedInvocationView {
                address: address@,
                delay_ms,
                cancellation_token: cancellation_token@,
                typename: typename@,
                bytes: bytes@,
            }),
    {
        DelayedInvocation { address, delay_ms, cancellation_token, typename, bytes }
    }
}

/// The mathematical value of a [`StateUpdate`].
pub enum StateUpdateView {
    /// The cell is set to the given bytes.
    Update(ValueSpecBaseView, Seq<u8>),
    /// The cell is cleared.
    Delete(ValueSpecBaseView),
}

impl StateUpdateView {
    /// The name of the cell this update concerns.
    pub open spec fn cell_name(self) -> Seq<char> {
        match self {
            StateUpdateView::Update(spec_base, _) => spec_base.name,
            StateUpdateView::Delete(spec_base) => spec_base.name,
        }
    }
}

/// One recorded write to a persistent state cell: either an update to a new
/// value or a deletion.
#[derive(Debug)]
pub enum StateUpdate {
    /// The cell is set to the given bytes.
    Update(ValueSpecBase, Vec<u8>),
    /// The cell is cleared.
    Delete(ValueSpecBase),
}

impl View for StateUpdate {
    type V = StateUpdateView;

    open spec fn view(&self) -> StateUpdateView {
        match self {
            StateUpdate::Update(spec_base, bytes) => StateUpdateView::Update(spec_base@, bytes@),
            StateUpdate::Delete(spec_base) => StateUpdateView::Delete(spec_base@),
        }
    }
}

/// The mathematical value of an [`Effects`] accumulator.
pub struct EffectsView {
    /// Outgoing messages: target, payload type name, payload bytes.
    pub invocations: Seq<(AddressView, Seq<char>, Seq<u8>)>,
    /// Delayed messages, in the order they were requested.
    pub delayed_invocations: Seq<DelayedInvocationView>,
    /// Cancellation tokens, in the order they were requested.
    pub cancelled_delayed_invocations: Seq<Seq<char>>,
    /// Egress records: egress identity, payload type name, payload bytes.
    pub egress_messages: Seq<(EgressIdentifierView, Seq<char>, Seq<u8>)>,
    /// State writes, in the order they were requested.
    pub state_updates: Seq<StateUpdateView>,
}

impl EffectsView {
    /// An accumulator with nothing recorded.
    pub open spec fn empty() -> EffectsView {
        EffectsView {
            invocations: Seq::empty(),
            delayed_invocations: Seq::empty(),
            cancelled_delayed_invocations: Seq::empty(),
            egress_messages: Seq::empty(),
            state_updates: Seq::empty(),
        }
    }
}

/// Effects (or side effects) of a stateful function invocation.
///
/// A write-only accumulator: every operation appends and none mutates a prior
/// entry. It can be used to:
///  - send messages to stateful functions, now or after a delay,
///  - cancel a delayed message that is still undelivered,
///  - send messages to an egress,
///  - update or delete the state of this stateful function.
#[derive(Debug)]
pub struct Effects {
    /// Outgoing messages: target, payload type name, payload bytes.
    pub invocations: Vec<(Address, String, Vec<u8>)>,
    /// Delayed messages, in the order they were requested.
    pub delayed_invocations: Vec<DelayedInvocation>,
    /// Cancellation tokens, in the order they were requested.
    pub cancelled_delayed_invocations: Vec<String>,
    /// Egress records: egress identity, payload type name, payload bytes.
    pub egress_messages: Vec<(EgressIdentifier, String, Vec<u8>)>,
    /// State writes, in the order they were requested.
    pub state_updates: Vec<StateUpdate>,
}

impl View for Effects {
    type V = EffectsView;

    open spec fn view(&self) -> EffectsView {
        EffectsView {
            invocations: invocation_tuple_views(self.invocations@),
            delayed_invocations: seq_view(self.delayed_invocations@),
            cancelled_delayed_invocations: seq_view(self.cancelled_delayed_invocations@),
            egress_messages: egress_tuple_views(self.egress_messages@),
            state_updates: seq_view(self.state_updates@),
        }
    }
}

impl Effects {
    /// Creates a new empty `Effects`.
    pub fn new() -> (r: Effects)
        ensures
            r@ == EffectsView::empty(),
    {
        let r = Effects {
            invocations: Vec::new(),
            delayed_invocations: Vec::new(),
            cancelled_delayed_invocations: Vec::new(),
            egress_messages: Vec::new(),
            state_updates: Vec::new(),
        };
        proof {
            assert(r@.invocations =~= EffectsView::empty().invocations);
            assert(r@.delayed_invocations =~= EffectsView::empty().delayed_invocations);
            assert(r@.cancelled_delayed_invocations
                =~= EffectsView::empty().cancelled_delayed_invocations);
            assert(r@.egress_messages =~= EffectsView::empty().egress_messages);
            assert(r@.state_updates =~= EffectsView::empty().state_updates);
        }
        r
    }

    /// Sends a message to the stateful function identified by the address.
    ///
    /// On success the message is appended to the outgoing messages; a
    /// serializer error is returned unchanged and records nothing.
    pub fn send<T: Serializable<T> + TypeName>(&mut self, address: Address, value: &T) -> (r:
        Result<(), String>)
        ensures
            ({
                let s = value.ser_spec(T::typename_spec());
                &&& r is Ok <==> s is Ok
                &&& r is Ok ==> final(self)@ == (EffectsView {
                    invocations: old(self)@.invocations.push(
                        (address@, T::typename_spec(), s->Ok_0),
                    ),
                    ..old(self)@
                })
                &&& r is Err ==> final(self)@ == old(self)@ && r->Err_0@ == s->Err_0
            }),
    {
        let typename = T::get_typename().to_owned();
        let serialized = match value.serialize(typename) {
            Ok(b) => b,
            Err(e) => {
                proof {
                    lemma_effects_view_unchanged(*old(self), *self);
                }
                return Err(e);
            },
        };
        let typename = T::get_typename().to_owned();
        self.invocations.push((address, typename, serialized));
        proof {
            lemma_effects_view_after_push(*old(self), *self);
        }
        Ok(())
    }

    /// Sends a delayed message to the stateful function identified by the
    /// address after a delay of the given number of milliseconds. The token
    /// may be used to cancel the message while it is still undelivered.
    pub fn send_after<T: Serializable<T> + TypeName>(
        &mut self,
        address: Address,
        delay_ms: u64,
        cancellation_token: String,
        value: &T,
    ) -> (r: Result<(), String>)
        ensures
            ({
                let s = value.ser_spec(T::typename_spec());
                &&& r is Ok <==> s is Ok
                &&& r is Ok ==> final(self)@ == (EffectsView {
                    delayed_invocations: old(self)@.delayed_invocations.push(
                        DelayedInvocationView {
                            address: address@,
                            delay_ms,
                            cancellation_token: cancellation_token@,
                            typename: T::typename_spec(),
                            bytes: s->Ok_0,
                        },
                    ),
                    ..old(self)@
                })
                &&& r is Err ==> final(self)@ == old(self)@ && r->Err_0@ == s->Err_0
            }),
    {
        let typename = T::get_typename().to_owned();
        let serialized = match value.serialize(typename) {
            Ok(b) => b,
            Err(e) => {
                proof {
                    lemma_effects_view_unchanged(*old(self), *self);
                }
                return Err(e);
            },
        };
        let typename = T::get_typename().to_owned();
        self.delayed_invocations.push(
            DelayedInvocation::new(address, delay_ms, cancellation_token, typename, serialized),
        );
        proof {
            lemma_effects_view_after_push(*old(self), *self);
        }
        Ok(())
    }

    /// Cancels a message previously sent via `send_after`. Note that the
    /// message might have already been delivered, in which case the
    /// cancellation is a no-op downstream.
    pub fn cancel_delayed_message(&mut self, cancellation_token: String)
        ensures
            final(self)@ == (EffectsView {
                cancelled_delayed_invocations: old(self)@.cancelled_delayed_invocations.push(
                    cancellation_token@,
                ),
                ..old(self)@
            }),
    {
        self.cancelled_delayed_invocations.push(cancellation_token);
        proof {
            lemma_effects_view_after_push(*old(self), *self);
        }
    }

    /// Sends a message to the egress identified by the `EgressIdentifier`.
    pub fn egress<T: Serializable<T> + TypeName>(
        &mut self,
        identifier: EgressIdentifier,
        value: &T,
    ) -> (r: Result<(), String>)
        ensures
            ({
                let s = value.ser_spec(T::typename_spec());
                &&& r is Ok <==> s is Ok
                &&& r is Ok ==> final(self)@ == (EffectsView {
                    egress_messages: old(self)@.egress_messages.push(
                        (identifier@, T::typename_spec(), s->Ok_0),
                    ),
                    ..old(self)@
                })
                &&& r is Err ==> final(self)@ == old(self)@ && r->Err_0@ == s->Err_0
            }),
    {
        let typename = T::get_typename().to_owned();
        let serialized = match value.serialize(typename) {
            Ok(b) => b,
            Err(e) => {
                proof {
                    lemma_effects_view_unchanged(*old(self), *self);
                }
                return Err(e);
            },
        };
        let typename = T::get_typename().to_owned();
        self.egress_messages.push((identifier, typename, serialized));
        proof {
            lemma_effects_view_after_push(*old(self), *self);
        }
        Ok(())
    }

    /// Updates the state stored under the given cell to the given value.
    pub fn update_state<T: Serializable<T>>(&mut self, value_spec: ValueSpec<T>, value: &T) -> (r:
        Result<(), String>)
        ensures
            ({
                let s = value.ser_spec(value_spec@.typename);
                &&& r is Ok <==> s is Ok
                &&& r is Ok ==> final(self)@ == (EffectsView {
                    state_updates: old(self)@.state_updates.push(
                        StateUpdateView::Update(value_spec@, s->Ok_0),
                    ),
                    ..old(self)@
                })
                &&& r is Err ==> final(self)@ == old(self)@ && r->Err_0@ == s->Err_0
            }),
    {
        let typename = value_spec.base.typename.clone();
        let serialized = match value.serialize(typename) {
            Ok(b) => b,
            Err(e) => {
                proof {
                    lemma_effects_view_unchanged(*old(self), *self);
                }
                return Err(e);
            },
        };
        self.state_updates.push(StateUpdate::Update(value_spec.base, serialized));
        proof {
            lemma_effects_view_after_push(*old(self), *self);
        }
        Ok(())
    }

    /// Deletes the state kept under the given cell.
    pub fn delete_state<T: Serializable<T>>(&mut self, value_spec: ValueSpec<T>)
        ensures
            final(self)@ == (EffectsView {
                state_updates: old(self)@.state_updates.push(
                    StateUpdateView::Delete(value_spec@),
                ),
                ..old(self)@
            }),
    {
        self.state_updates.push(StateUpdate::Delete(value_spec.base));
        proof {
            lemma_effects_view_after_push(*old(self), *self);
        }
    }
}

/// When no accumulator vector changed, neither did the view.
proof fn lemma_effects_view_unchanged(a: Effects, b: Effects)
    requires
        a.invocations@ == b.invocations@,
        a.delayed_invocations@ == b.delayed_invocations@,
        a.cancelled_delayed_invocations@ == b.cancelled_delayed_invocations@,
        a.egress_messages@ == b.egress_messages@,
        a.state_updates@ == b.state_updates@,
    ensures
        a@ == b@,
{
    assert(a@.invocations =~= b@.invocations);
    assert(a@.delayed_invocations =~= b@.delayed_invocations);
    assert(a@.cancelled_delayed_invocations =~= b@.cancelled_delayed_invocations);
    assert(a@.egress_messages =~= b@.egress_messages);
    assert(a@.state_updates =~= b@.state_updates);
}

/// After pushing onto exactly one of the accumulator vectors, the view of
/// that field gains exactly the view of the pushed element, and the other
/// fields keep their views.
proof fn lemma_effects_view_after_push(a: Effects, b: Effects)
    ensures
        b.invocations@ == a.invocations@.push(b.invocations@.last()) ==> b@.invocations
            == a@.invocations.push(
            (
                b.invocations@.last().0@,
                b.invocations@.last().1@,
                b.invocations@.last().2@,
            ),
        ),
        b.invocations@ == a.invocations@ ==> b@.invocations == a@.invocations,
        b.delayed_invocations@ == a.delayed_invocations@.push(b.delayed_invocations@.last())
            ==> b@.delayed_invocations == a@.delayed_invocations.push(
            b.delayed_invocations@.last()@,
        ),
        b.delayed_invocations@ == a.delayed_invocations@ ==> b@.delayed_invocations
            == a@.delayed_invocations,
        b.cancelled_delayed_invocations@ == a.cancelled_delayed_invocations@.push(
            b.cancelled_delayed_invocations@.last(),
        ) ==> b@.cancelled_delayed_invocations == a@.cancelled_delayed_invocations.push(
            b.cancelled_delayed_invocations@.last()@,
        ),
        b.cancelled_delayed_invocations@ == a.cancelled_delayed_invocations@
            ==> b@.cancelled_delayed_invocations == a@.cancelled_delayed_invocations,
        b.egress_messages@ == a.egress_messages@.push(b.egress_messages@.last())
            ==> b@.egress_messages == a@.egress_messages.push(
            (
                b.egress_messages@.last().0@,
                b.egress_messages@.last().1@,
                b.egress_messages@.last().2@,
            ),
        ),
        b.egress_messages@ == a.egress_messages@ ==> b@.egress_messages == a@.egress_messages,
        b.state_updates@ == a.state_updates@.push(b.state_updates@.last()) ==> b@.state_updates
            == a@.state_updates.push(b.state_updates@.last()@),
        b.state_updates@ == a.state_updates@ ==> b@.state_updates == a@.state_updates,
{
    if b.invocations@ == a.invocations@.push(b.invocations@.last()) {
        assert(b@.invocations =~= a@.invocations.push(
            (
                b.invocations@.last().0@,
                b.invocations@.last().1@,
                b.invocations@.last().2@,
            ),
        ));
    }
    if b.invocations@ == a.invocations@ {
        assert(b@.invocations =~= a@.invocations);
    }
    if b.delayed_invocations@ == a.delayed_invocations@.push(b.delayed_invocations@.last()) {
        assert(b@.delayed_invocations =~= a@.delayed_invocations.push(
            b.delayed_invocations@.last()@,
        ));
    }
    if b.delayed_invocations@ == a.delayed_invocations@ {
        assert(b@.delayed_invocations =~= a@.delayed_invocations);
    }
    if b.cancelled_delayed_invocations@ == a.cancelled_delayed_invocations@.push(
        b.cancelled_delayed_invocations@.last(),
    ) {
        assert(b@.cancelled_delayed_invocations =~= a@.cancelled_delayed_invocations.push(
            b.cancelled_delayed_invocations@.last()@,
        ));
    }
    if b.cancelled_delayed_invocations@ == a.cancelled_delayed_invocations@ {
        assert(b@.cancelled_delayed_invocations =~= a@.cancelled_delayed_invocations);
    }
    if b.egress_messages@ == a.egress_messages@.push(b.egress_messages@.last()) {
        assert(b@.egress_messages =~= a@.egress_messages.push(
            (
                b.egress_messages@.last().0@,
                b.egress_messages@.last().1@,
                b.egress_messages@.last().2@,
            ),
        ));
    }
    if b.egress_messages@ == a.egress_messages@ {
        assert(b@.egress_messages =~= a@.egress_messages);
    }
    if b.state_updates@ == a.state_updates@.push(b.state_updates@.last()) {
        assert(b@.state_updates =~= a@.state_updates.push(b.state_updates@.last()@));
    }
    if b.state_updates@ == a.state_updates@ {
        assert(b@.state_updates =~= a@.state_updates);
    }
}

} // verus!
