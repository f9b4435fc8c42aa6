//! The invocation engine: the pure translation of one batch into one
//! response. It seeds the working state map from the snapshot, dispatches to
//! the registered handler, runs the queued invocations in order — each seeing
//! the state effects of the previous ones — and coalesces the state writes
//! into at most one mutation per cell.

use vstd::prelude::*;

use crate::address::{Address, AddressView};
use crate::context::{Context, ContextView, StateCell, StateCellView, cell_index,
    lemma_cell_index_absent, lemma_cell_index_at};
use crate::effects::{DelayedInvocationView, Effects, StateUpdate, StateUpdateView,
    egress_tuple_views, invocation_tuple_views};
use crate::egress_identifier::{EgressIdentifier, EgressIdentifierView};
use crate::error::{InvocationError, InvocationErrorView};
use crate::function_registry::{FunctionRegistry, InvokableFunction, RegistryEntryView,
    missing_from, spec_lookup};
use crate::message::Message;
use crate::request_reply::{EgressMessage, EgressMessageView, FromFunction,
    FromFunctionDelayedInvocation, FromFunctionDelayedInvocationView, FromFunctionInvocation,
    FromFunctionInvocationView, FromFunctionView, IncompleteInvocationContext,
    IncompleteInvocationContextView, InvocationResponse, InvocationResponseView,
    InvocationView, MutationType, PersistedValue, PersistedValueMutation,
    PersistedValueMutationView, PersistedValueSpec, PersistedValueSpecView, PersistedValueView,
    ToFunction, ToFunctionView, expiration_spec_of, spec_expiration_spec_of};
use crate::typed_value::{TypedValue, TypedValueView, clone_bytes};
use crate::value_spec::{ValueSpecBase, ValueSpecBaseView};
use crate::views::seq_view;

verus! {

/// The working state map after setting the named cell to the given type name
/// and bytes: the first cell of that name is replaced, or a new cell is
/// appended when none carries the name.
pub open spec fn upsert_cell(
    working: Seq<StateCellView>,
    name: Seq<char>,
    typename: Seq<char>,
    bytes: Seq<u8>,
) -> Seq<StateCellView> {
    let i = cell_index(working, name);
    if i == -1 {
        working.push(StateCellView { name, typename, bytes })
    } else {
        working.update(i, StateCellView { name, typename, bytes })
    }
}

/// The working state map seeded from a batch's snapshot, cell by cell in
/// snapshot order.
pub open spec fn seed_cells(state: Seq<PersistedValueView>) -> Seq<StateCellView>
    decreases state.len(),
{
    if state.len() == 0 {
        Seq::empty()
    } else {
        upsert_cell(
            seed_cells(state.drop_last()),
            state.last().state_name,
            state.last().state_value.typename,
            state.last().state_value.value,
        )
    }
}

/// The working state map after one state effect. An update stores the new
/// bytes; a deletion stores empty bytes — the cell is kept, so that later
/// invocations of the batch still observe it as allocated.
pub open spec fn apply_update(working: Seq<StateCellView>, u: StateUpdateView) -> Seq<
    StateCellView,
> {
    match u {
        StateUpdateView::Update(spec_base, bytes) => upsert_cell(
            working,
            spec_base.name,
            spec_base.typename,
            bytes,
        ),
        StateUpdateView::Delete(spec_base) => upsert_cell(
            working,
            spec_base.name,
            spec_base.typename,
            Seq::empty(),
        ),
    }
}

/// The working state map after a list of state effects, applied in order.
pub open spec fn apply_updates(
    working: Seq<StateCellView>,
    updates: Seq<StateUpdateView>,
) -> Seq<StateCellView>
    decreases updates.len(),
{
    if updates.len() == 0 {
        working
    } else {
        apply_update(apply_updates(working, updates.drop_last()), updates.last())
    }
}

/// The index of the first recorded mutation concerning the named cell, or
/// `-1` when none does.
pub open spec fn update_index(updates: Seq<StateUpdateView>, name: Seq<char>) -> int
    decreases updates.len(),
{
    if updates.len() == 0 {
        -1
    } else if updates[0].cell_name() == name {
        0
    } else {
        let rest = update_index(updates.drop_first(), name);
        if rest == -1 {
            -1
        } else {
            rest + 1
        }
    }
}

/// The index returned by [`update_index`] is in range and is the first index
/// whose mutation concerns the name.
pub proof fn lemma_update_index(updates: Seq<StateUpdateView>, name: Seq<char>)
    ensures
        update_index(updates, name) == -1 ==> forall|i: int|
            0 <= i < updates.len() ==> updates[i].cell_name() != name,
        update_index(updates, name) != -1 ==> {
            &&& 0 <= update_index(updates, name) < updates.len()
            &&& updates[update_index(updates, name)].cell_name() == name
            &&& forall|i: int|
                0 <= i < update_index(updates, name) ==> updates[i].cell_name() != name
        },
    decreases updates.len(),
{
    if updates.len() != 0 && updates[0].cell_name() != name {
        lemma_update_index(updates.drop_first(), name);
        assert forall|i: int| 0 <= i < updates.len() implies (updates[i].cell_name() == name
            ==> update_index(updates, name) != -1 && i >= update_index(updates, name)) by {
            if 0 < i < updates.len() {
                assert(updates.drop_first()[i - 1] == updates[i]);
            }
        }
    }
}

/// The coalesced mutation list after recording one more state effect: the
/// mutation previously recorded for the same cell name is replaced — the last
/// write wins — or the effect is appended when the cell was untouched so far.
pub open spec fn coalesce_one(acc: Seq<StateUpdateView>, u: StateUpdateView) -> Seq<
    StateUpdateView,
> {
    let i = update_index(acc, u.cell_name());
    if i == -1 {
        acc.push(u)
    } else {
        acc.update(i, u)
    }
}

/// The coalesced mutation list after a list of state effects, recorded in
/// order.
pub open spec fn coalesce(acc: Seq<StateUpdateView>, updates: Seq<StateUpdateView>) -> Seq<
    StateUpdateView,
>
    decreases updates.len(),
{
    if updates.len() == 0 {
        acc
    } else {
        coalesce_one(coalesce(acc, updates.drop_last()), updates.last())
    }
}

/// The outgoing messages of a response, as recorded by one invocation's
/// effects.
pub open spec fn outgoing_views(
    invocations: Seq<(AddressView, Seq<char>, Seq<u8>)>,
) -> Seq<FromFunctionInvocationView> {
    Seq::new(
        invocations.len(),
        |i: int| FromFunctionInvocationView {
            target: invocations[i].0,
            argument: TypedValueView {
                typename: invocations[i].1,
                has_value: true,
                value: invocations[i].2,
            },
        },
    )
}

/// The delayed messages of a response, as recorded by one invocation's
/// effects.
pub open spec fn delayed_views(
    delayed: Seq<DelayedInvocationView>,
) -> Seq<FromFunctionDelayedInvocationView> {
    Seq::new(
        delayed.len(),
        |i: int| FromFunctionDelayedInvocationView {
            is_cancellation_request: false,
            target: Some(delayed[i].address),
            delay_in_ms: delayed[i].delay_ms,
            cancellation_token: delayed[i].cancellation_token,
            argument: Some(
                TypedValueView {
                    typename: delayed[i].typename,
                    has_value: true,
                    value: delayed[i].bytes,
                },
            ),
        },
    )
}

/// The cancellation entries of a response, as recorded by one invocation's
/// effects: each carries the token alone, with no target and no payload.
pub open spec fn cancellation_views(
    tokens: Seq<Seq<char>>,
) -> Seq<FromFunctionDelayedInvocationView> {
    Seq::new(
        tokens.len(),
        |i: int| FromFunctionDelayedInvocationView {
            is_cancellation_request: true,
            target: None,
            delay_in_ms: 0,
            cancellation_token: tokens[i],
            argument: None,
        },
    )
}

/// The egress records of a response, as recorded by one invocation's effects.
pub open spec fn egress_views(
    egresses: Seq<(EgressIdentifierView, Seq<char>, Seq<u8>)>,
) -> Seq<EgressMessageView> {
    Seq::new(
        egresses.len(),
        |i: int| EgressMessageView {
            egress_namespace: egresses[i].0.namespace,
            egress_type: egresses[i].0.name,
            argument: TypedValueView {
                typename: egresses[i].1,
                has_value: true,
                value: egresses[i].2,
            },
        },
    )
}

/// The wire mutations of the coalesced mutation list: an update carries the
/// new payload under the cell's declared type name; a deletion carries the
/// mutation kind alone.
pub open spec fn mutation_views(coalesced: Seq<StateUpdateView>) -> Seq<
    PersistedValueMutationView,
> {
    Seq::new(
        coalesced.len(),
        |i: int| match coalesced[i] {
            StateUpdateView::Update(spec_base, bytes) => PersistedValueMutationView {
                mutation_type: MutationType::Modify,
                state_name: spec_base.name,
                state_value: Some(
                    TypedValueView { typename: spec_base.typename, has_value: true, value: bytes },
                ),
            },
            StateUpdateView::Delete(spec_base) => PersistedValueMutationView {
                mutation_type: MutationType::Delete,
                state_name: spec_base.name,
                state_value: None,
            },
        },
    )
}

/// The declared-but-missing cells as reported to the coordinator, each with
/// its name, type name and wire expiration policy, in declaration order.
pub open spec fn missing_value_views(missing: Seq<ValueSpecBaseView>) -> Seq<
    PersistedValueSpecView,
> {
    Seq::new(
        missing.len(),
        |i: int| PersistedValueSpecView {
            state_name: missing[i].name,
            expiration_spec: spec_expiration_spec_of(missing[i].expiration),
            type_typename: missing[i].typename,
        },
    )
}

/// Everything the batch loop accumulates: the working state map and the four
/// response lists, with the state writes already coalesced.
pub struct BatchStateView {
    /// The working state map, seeded from the snapshot and updated after
    /// every invocation.
    pub working: Seq<StateCellView>,
    /// Outgoing messages so far.
    pub outgoing: Seq<FromFunctionInvocationView>,
    /// Delayed messages and cancellations so far.
    pub delayed: Seq<FromFunctionDelayedInvocationView>,
    /// Egress records so far.
    pub egresses: Seq<EgressMessageView>,
    /// The coalesced state mutations so far: at most one per cell name, the
    /// last write winning.
    pub coalesced: Seq<StateUpdateView>,
}

/// The batch loop's accumulator before the first invocation.
pub open spec fn initial_batch_state(working: Seq<StateCellView>) -> BatchStateView {
    BatchStateView {
        working,
        outgoing: Seq::empty(),
        delayed: Seq::empty(),
        egresses: Seq::empty(),
        coalesced: Seq::empty(),
    }
}

/// One turn of the batch loop: the handler runs on the current working state
/// and its effects are folded into the accumulator. Messages, delayed
/// messages, cancellations and egress records are appended in the order the
/// effects recorded them, with an invocation's delayed messages preceding its
/// cancellations; state writes are applied to the working map and coalesced.
pub open spec fn batch_step<F: InvokableFunction>(
    f: F,
    target: AddressView,
    st: BatchStateView,
    inv: InvocationView,
) -> BatchStateView {
    let eff = f.effects_spec(
        ContextView { state: st.working, self_address: target, caller_address: inv.caller },
        inv.argument,
    );
    BatchStateView {
        working: apply_updates(st.working, eff.state_updates),
        outgoing: st.outgoing + outgoing_views(eff.invocations),
        delayed: st.delayed + delayed_views(eff.delayed_invocations) + cancellation_views(
            eff.cancelled_delayed_invocations,
        ),
        egresses: st.egresses + egress_views(eff.egress_messages),
        coalesced: coalesce(st.coalesced, eff.state_updates),
    }
}

/// The batch loop: the queued invocations folded into the accumulator in
/// delivery order, each seeing the working state the previous one left.
pub open spec fn run_batch<F: InvokableFunction>(
    f: F,
    target: AddressView,
    st: BatchStateView,
    invocations: Seq<InvocationView>,
) -> BatchStateView
    decreases invocations.len(),
{
    if invocations.len() == 0 {
        st
    } else {
        batch_step(f, target, run_batch(f, target, st, invocations.drop_last()), invocations.last())
    }
}

/// What translating one batch returns.
///
/// An unregistered target function type is an error. Otherwise the result is
/// a response: when at least one invocation is queued and declared cells are
/// missing from the snapshot, it lists exactly those cells and no invocation
/// runs; in every other case the queued invocations run in order and the
/// response carries their accumulated effects.
pub open spec fn invocation_result<F: InvokableFunction>(
    entries: Seq<RegistryEntryView<F>>,
    to_function: ToFunctionView,
) -> Result<FromFunctionView, InvocationErrorView> {
    match spec_lookup(entries, to_function.target.function_type) {
        None => Err(InvocationErrorView::FunctionNotFound(to_function.target.function_type)),
        Some(entry) => {
            let working = seed_cells(to_function.state);
            let missing = missing_from(entry.value_specs, working);
            if to_function.invocations.len() > 0 && missing.len() > 0 {
                Ok(
                    FromFunctionView::IncompleteInvocationContext(
                        IncompleteInvocationContextView {
                            missing_values: missing_value_views(missing),
                        },
                    ),
                )
            } else {
                let fin = run_batch(
                    entry.function,
                    to_function.target,
                    initial_batch_state(working),
                    to_function.invocations,
                );
                Ok(
                    FromFunctionView::InvocationResponse(
                        InvocationResponseView {
                            outgoing_messages: fin.outgoing,
                            delayed_invocations: fin.delayed,
                            outgoing_egresses: fin.egresses,
                            state_mutations: mutation_views(fin.coalesced),
                        },
                    ),
                )
            }
        },
    }
}

/// When no recorded mutation among the first `i` concerns the name and
/// mutation `i` does, the first index concerning the name is `i`.
pub(crate) proof fn lemma_update_index_at(updates: Seq<StateUpdateView>, name: Seq<char>, i: int)
    requires
        0 <= i < updates.len(),
        updates[i].cell_name() == name,
        forall|j: int| 0 <= j < i ==> updates[j].cell_name() != name,
    ensures
        update_index(updates, name) == i,
{
    lemma_update_index(updates, name);
    let idx = update_index(updates, name);
    if idx == -1 {
        assert(updates[i].cell_name() != name);
    } else if idx < i {
        assert(updates[idx].cell_name() != name);
    } else if idx > i {
        assert(updates[i].cell_name() != name);
    }
}

/// When no recorded mutation concerns the name, no index does.
pub(crate) proof fn lemma_update_index_absent(updates: Seq<StateUpdateView>, name: Seq<char>)
    requires
        forall|j: int| 0 <= j < updates.len() ==> updates[j].cell_name() != name,
    ensures
        update_index(updates, name) == -1,
{
    lemma_update_index(updates, name);
    if update_index(updates, name) != -1 {
        assert(updates[update_index(updates, name)].cell_name() != name);
    }
}

/// Returns a copy of the given state effect.
fn clone_update(u: &StateUpdate) -> (r: StateUpdate)
    ensures
        r@ == u@,
{
    match u {
        StateUpdate::Update(spec_base, bytes) => StateUpdate::Update(
            spec_base.clone(),
            clone_bytes(bytes),
        ),
        StateUpdate::Delete(spec_base) => StateUpdate::Delete(spec_base.clone()),
    }
}

/// The name of the cell the given state effect concerns.
fn update_name(u: &StateUpdate) -> (r: &String)
    ensures
        r@ == u@.cell_name(),
{
    match u {
        StateUpdate::Update(spec_base, _) => &spec_base.name,
        StateUpdate::Delete(spec_base) => &spec_base.name,
    }
}

/// Sets the named cell of the working state map to the given type name and
/// bytes, replacing the first cell of that name or appending a new one.
fn set_cell(working: &mut Vec<StateCell>, name: &String, typename: &String, bytes: Vec<u8>)
    ensures
        seq_view(final(working)@) == upsert_cell(
            seq_view(old(working)@),
            name@,
            typename@,
            bytes@,
        ),
{
    let n = working.len();
    let mut i: usize = 0;
    while i < n
        invariant
            n == working.len(),
            working@ == old(working)@,
            i <= n,
            forall|j: int| 0 <= j < i ==> seq_view(working@)[j].name != name@,
        decreases n - i,
    {
        if working[i].name == *name {
            proof {
                lemma_cell_index_at(seq_view(working@), name@, i as int);
            }
            working.set(
                i,
                StateCell { name: name.clone(), typename: typename.clone(), bytes },
            );
            proof {
                assert(seq_view(working@) =~= upsert_cell(
                    seq_view(old(working)@),
                    name@,
                    typename@,
                    bytes@,
                ));
            }
            return ;
        }
        i = i + 1;
    }
    proof {
        lemma_cell_index_absent(seq_view(working@), name@);
    }
    working.push(StateCell { name: name.clone(), typename: typename.clone(), bytes });
    proof {
        assert(seq_view(working@) =~= upsert_cell(
            seq_view(old(working)@),
            name@,
            typename@,
            bytes@,
        ));
    }
}

/// Builds the working state map from a batch's snapshot. The type name from
/// the snapshot is retained for reporting but plays no part in lookups.
fn parse_persisted_values(persisted_values: &Vec<PersistedValue>) -> (r: Vec<StateCell>)
    ensures
        seq_view(r@) == seed_cells(seq_view(persisted_values@)),
{
    let mut working: Vec<StateCell> = Vec::new();
    let n = persisted_values.len();
    let mut i: usize = 0;
    proof {
        assert(seq_view(persisted_values@).take(0) =~= Seq::<PersistedValueView>::empty());
        assert(seq_view(working@) =~= seed_cells(seq_view(persisted_values@).take(0)));
    }
    while i < n
        invariant
            n == persisted_values.len(),
            i <= n,
            seq_view(working@) == seed_cells(seq_view(persisted_values@).take(i as int)),
        decreases n - i,
    {
        let pv = &persisted_values[i];
        set_cell(&mut working, &pv.state_name, &pv.state_value.typename, clone_bytes(
            &pv.state_value.value,
        ));
        proof {
            let pvs = seq_view(persisted_values@);
            assert(pvs.take(i as int + 1).drop_last() =~= pvs.take(i as int));
            assert(pvs.take(i as int + 1).last() == pvs[i as int]);
        }
        i = i + 1;
    }
    proof {
        assert(seq_view(persisted_values@).take(n as int) =~= seq_view(persisted_values@));
    }
    working
}

/// Records one state effect in the coalesced mutation list: the mutation
/// previously recorded for the same cell is replaced — the last write wins —
/// or the effect is appended when the cell was untouched so far.
fn coalesce_set(coalesced: &mut Vec<StateUpdate>, u: StateUpdate)
    ensures
        seq_view(final(coalesced)@) == coalesce_one(seq_view(old(coalesced)@), u@),
{
    let n = coalesced.len();
    let mut i: usize = 0;
    while i < n
        invariant
            n == coalesced.len(),
            coalesced@ == old(coalesced)@,
            i <= n,
            forall|j: int| 0 <= j < i ==> seq_view(coalesced@)[j].cell_name() != u@.cell_name(),
        decreases n - i,
    {
        if *update_name(&coalesced[i]) == *update_name(&u) {
            proof {
                lemma_update_index_at(seq_view(coalesced@), u@.cell_name(), i as int);
            }
            coalesced.set(i, u);
            proof {
                assert(seq_view(coalesced@) =~= coalesce_one(seq_view(old(coalesced)@), u@));
            }
            return ;
        }
        i = i + 1;
    }
    proof {
        lemma_update_index_absent(seq_view(coalesced@), u@.cell_name());
    }
    coalesced.push(u);
    proof {
        assert(seq_view(coalesced@) =~= coalesce_one(seq_view(old(coalesced)@), u@));
    }
}

/// Folds one invocation's state effects into the batch: each effect is
/// applied to the working state map — so that the next invocation sees it —
/// and recorded in the coalesced mutation list, the last write per cell
/// winning.
///
/// A deletion clears the cell's bytes but keeps the cell: the coordinator
/// treats a deleted cell as allocated-but-empty, and dropping the key would
/// make a later invocation of the same batch report the cell missing and the
/// coordinator re-deliver the batch forever.
fn update_state(
    persisted_state: &mut Vec<StateCell>,
    coalesced_state: &mut Vec<StateUpdate>,
    state_updates: &Vec<StateUpdate>,
)
    ensures
        seq_view(final(persisted_state)@) == apply_updates(
            seq_view(old(persisted_state)@),
            seq_view(state_updates@),
        ),
        seq_view(final(coalesced_state)@) == coalesce(
            seq_view(old(coalesced_state)@),
            seq_view(state_updates@),
        ),
{
    let n = state_updates.len();
    let mut i: usize = 0;
    proof {
        assert(seq_view(state_updates@).take(0) =~= Seq::<StateUpdateView>::empty());
    }
    while i < n
        invariant
            n == state_updates.len(),
            i <= n,
            seq_view(persisted_state@) == apply_updates(
                seq_view(old(persisted_state)@),
                seq_view(state_updates@).take(i as int),
            ),
            seq_view(coalesced_state@) == coalesce(
                seq_view(old(coalesced_state)@),
                seq_view(state_updates@).take(i as int),
            ),
        decreases n - i,
    {
        let u = &state_updates[i];
        match u {
            StateUpdate::Delete(spec_base) => {
                let empty_bytes: Vec<u8> = Vec::new();
                proof {
                    assert(empty_bytes@ =~= Seq::<u8>::empty());
                }
                set_cell(persisted_state, &spec_base.name, &spec_base.typename, empty_bytes);
            },
            StateUpdate::Update(spec_base, bytes) => {
                set_cell(persisted_state, &spec_base.name, &spec_base.typename, clone_bytes(bytes));
            },
        }
        coalesce_set(coalesced_state, clone_update(u));
        proof {
            let us = seq_view(state_updates@);
            assert(us.take(i as int + 1).drop_last() =~= us.take(i as int));
            assert(us.take(i as int + 1).last() == us[i as int]);
        }
        i = i + 1;
    }
    proof {
        assert(seq_view(state_updates@).take(n as int) =~= seq_view(state_updates@));
    }
}

/// Appends one invocation's outgoing messages to the response, in the order
/// the effects recorded them.
fn serialize_invocation_messages(
    invocation_response: &mut InvocationResponse,
    invocation_messages: &Vec<(Address, String, Vec<u8>)>,
)
    ensures
        seq_view(final(invocation_response).outgoing_messages@) == seq_view(
            old(invocation_response).outgoing_messages@,
        ) + outgoing_views(invocation_tuple_views(invocation_messages@)),
        final(invocation_response).delayed_invocations@ == old(
            invocation_response,
        ).delayed_invocations@,
        final(invocation_response).outgoing_egresses@ == old(
            invocation_response,
        ).outgoing_egresses@,
        final(invocation_response).state_mutations@ == old(invocation_response).state_mutations@,
{
    let n = invocation_messages.len();
    let mut i: usize = 0;
    proof {
        assert(seq_view(invocation_response.outgoing_messages@) =~= seq_view(
            old(invocation_response).outgoing_messages@,
        ) + outgoing_views(invocation_tuple_views(invocation_messages@)).take(0));
    }
    while i < n
        invariant
            n == invocation_messages.len(),
            i <= n,
            seq_view(invocation_response.outgoing_messages@) == seq_view(
                old(invocation_response).outgoing_messages@,
            ) + outgoing_views(invocation_tuple_views(invocation_messages@)).take(i as int),
            invocation_response.delayed_invocations@ == old(
                invocation_response,
            ).delayed_invocations@,
            invocation_response.outgoing_egresses@ == old(invocation_response).outgoing_egresses@,
            invocation_response.state_mutations@ == old(invocation_response).state_mutations@,
        decreases n - i,
    {
        let m = &invocation_messages[i];
        proof {
            let pre = seq_view(old(invocation_response).outgoing_messages@);
            assert(seq_view(invocation_response.outgoing_messages@).len() == pre.len() + i);
        }
        let ghost before = invocation_response.outgoing_messages@;
        invocation_response.outgoing_messages.push(
            FromFunctionInvocation {
                target: m.0.clone(),
                argument: TypedValue::new(m.1.clone(), clone_bytes(&m.2)),
            },
        );
        proof {
            let views = outgoing_views(invocation_tuple_views(invocation_messages@));
            let pre = seq_view(old(invocation_response).outgoing_messages@);
            assert(invocation_response.outgoing_messages@ == before.push(invocation_response.outgoing_messages@.last()));
            assert(seq_view(invocation_response.outgoing_messages@).len() == seq_view(before).len() + 1);
            assert(seq_view(invocation_response.outgoing_messages@).len() == pre.len() + i + 1);
            assert(seq_view(invocation_response.outgoing_messages@)[pre.len() + i as int] == views[i as int]);
            assert(seq_view(invocation_response.outgoing_messages@) =~= seq_view(before).push(
                seq_view(invocation_response.outgoing_messages@).last(),
            ));
            assert(pre + views.take(i as int + 1) =~= (pre + views.take(i as int)).push(
                views[i as int],
            ));
            assert(seq_view(invocation_response.outgoing_messages@) == pre + views.take(i as int + 1));
        }
        i = i + 1;
    }
    proof {
        let views = outgoing_views(invocation_tuple_views(invocation_messages@));
        assert(views.take(n as int) =~= views);
    }
}

/// Appends one invocation's delayed messages to the response, in the order
/// the effects recorded them.
fn serialize_delayed_invocation_messages(
    invocation_response: &mut InvocationResponse,
    delayed_invocations: &Vec<crate::effects::DelayedInvocation>,
)
    ensures
        seq_view(final(invocation_response).delayed_invocations@) == seq_view(
            old(invocation_response).delayed_invocations@,
        ) + delayed_views(seq_view(delayed_invocations@)),
        final(invocation_response).outgoing_messages@ == old(
            invocation_response,
        ).outgoing_messages@,
        final(invocation_response).outgoing_egresses@ == old(
            invocation_response,
        ).outgoing_egresses@,
        final(invocation_response).state_mutations@ == old(invocation_response).state_mutations@,
{
    let n = delayed_invocations.len();
    let mut i: usize = 0;
    proof {
        assert(seq_view(invocation_response.delayed_invocations@) =~= seq_view(
            old(invocation_response).delayed_invocations@,
        ) + delayed_views(seq_view(delayed_invocations@)).take(0));
    }
    while i < n
        invariant
            n == delayed_invocations.len(),
            i <= n,
            seq_view(invocation_response.delayed_invocations@) == seq_view(
                old(invocation_response).delayed_invocations@,
            ) + delayed_views(seq_view(delayed_invocations@)).take(i as int),
            invocation_response.outgoing_messages@ == old(invocation_response).outgoing_messages@,
            invocation_response.outgoing_egresses@ == old(invocation_response).outgoing_egresses@,
            invocation_response.state_mutations@ == old(invocation_response).state_mutations@,
        decreases n - i,
    {
        let d = &delayed_invocations[i];
        proof {
            let pre = seq_view(old(invocation_response).delayed_invocations@);
            assert(seq_view(invocation_response.delayed_invocations@).len() == pre.len() + i);
        }
        proof {
            let pre = seq_view(old(invocation_response).delayed_invocations@);
            assert(seq_view(invocation_response.delayed_invocations@).len() == pre.len() + i);
        }
        let ghost before = invocation_response.delayed_invocations@;
        invocation_response.delayed_invocations.push(
            FromFunctionDelayedInvocation {
                is_cancellation_request: false,
                target: Some(d.address.clone()),
                delay_in_ms: d.delay_ms,
                cancellation_token: d.cancellation_token.clone(),
                argument: Some(TypedValue::new(d.typename.clone(), clone_bytes(&d.bytes))),
            },
        );
        proof {
            let views = delayed_views(seq_view(delayed_invocations@));
            let pre = seq_view(old(invocation_response).delayed_invocations@);
            assert(invocation_response.delayed_invocations@ == before.push(invocation_response.delayed_invocations@.last()));
            assert(seq_view(invocation_response.delayed_invocations@).len() == seq_view(before).len() + 1);
            assert(seq_view(invocation_response.delayed_invocations@).len() == pre.len() + i + 1);
            assert(seq_view(invocation_response.delayed_invocations@)[pre.len() + i as int] == views[i as int]);
            assert(seq_view(invocation_response.delayed_invocations@) =~= seq_view(before).push(
                seq_view(invocation_response.delayed_invocations@).last(),
            ));
            assert(pre + views.take(i as int + 1) =~= (pre + views.take(i as int)).push(
                views[i as int],
            ));
            assert(seq_view(invocation_response.delayed_invocations@) == pre + views.take(i as int + 1));
        }
        i = i + 1;
    }
    proof {
        let views = delayed_views(seq_view(delayed_invocations@));
        assert(views.take(n as int) =~= views);
    }
}

/// Appends one invocation's cancellations to the response, in the order the
/// effects recorded them: each entry carries the token alone, with no target
/// and no payload.
fn serialize_cancelled_delayed_messages(
    invocation_response: &mut InvocationResponse,
    cancelled_delayed_invocations: &Vec<String>,
)
    ensures
        seq_view(final(invocation_response).delayed_invocations@) == seq_view(
            old(invocation_response).delayed_invocations@,
        ) + cancellation_views(seq_view(cancelled_delayed_invocations@)),
        final(invocation_response).outgoing_messages@ == old(
            invocation_response,
        ).outgoing_messages@,
        final(invocation_response).outgoing_egresses@ == old(
            invocation_response,
        ).outgoing_egresses@,
        final(invocation_response).state_mutations@ == old(invocation_response).state_mutations@,
{
    let n = cancelled_delayed_invocations.len();
    let mut i: usize = 0;
    proof {
        assert(seq_view(invocation_response.delayed_invocations@) =~= seq_view(
            old(invocation_response).delayed_invocations@,
        ) + cancellation_views(seq_view(cancelled_delayed_invocations@)).take(0));
    }
    while i < n
        invariant
            n == cancelled_delayed_invocations.len(),
            i <= n,
            seq_view(invocation_response.delayed_invocations@) == seq_view(
                old(invocation_response).delayed_invocations@,
            ) + cancellation_views(seq_view(cancelled_delayed_invocations@)).take(i as int),
            invocation_response.outgoing_messages@ == old(invocation_response).outgoing_messages@,
            invocation_response.outgoing_egresses@ == old(invocation_response).outgoing_egresses@,
            invocation_response.state_mutations@ == old(invocation_response).state_mutations@,
        decreases n - i,
    {
        let ghost before = invocation_response.delayed_invocations@;
        invocation_response.delayed_invocations.push(
            FromFunctionDelayedInvocation {
                is_cancellation_request: true,
                target: None,
                delay_in_ms: 0,
                cancellation_token: cancelled_delayed_invocations[i].clone(),
                argument: None,
            },
        );
        proof {
            let views = cancellation_views(seq_view(cancelled_delayed_invocations@));
            let pre = seq_view(old(invocation_response).delayed_invocations@);
            assert(invocation_response.delayed_invocations@ == before.push(invocation_response.delayed_invocations@.last()));
            assert(seq_view(invocation_response.delayed_invocations@).len() == seq_view(before).len() + 1);
            assert(seq_view(invocation_response.delayed_invocations@).len() == pre.len() + i + 1);
            assert(seq_view(invocation_response.delayed_invocations@)[pre.len() + i as int] == views[i as int]);
            assert(seq_view(invocation_response.delayed_invocations@) =~= seq_view(before).push(
                seq_view(invocation_response.delayed_invocations@).last(),
            ));
            assert(pre + views.take(i as int + 1) =~= (pre + views.take(i as int)).push(
                views[i as int],
            ));
            assert(seq_view(invocation_response.delayed_invocations@) == pre + views.take(i as int + 1));
        }
        i = i + 1;
    }
    proof {
        let views = cancellation_views(seq_view(cancelled_delayed_invocations@));
        assert(views.take(n as int) =~= views);
    }
}

/// Appends one invocation's egress records to the response, in the order the
/// effects recorded them.
fn serialize_egress_messages(
    invocation_response: &mut InvocationResponse,
    egress_messages: &Vec<(EgressIdentifier, String, Vec<u8>)>,
)
    ensures
        seq_view(final(invocation_response).outgoing_egresses@) == seq_view(
            old(invocation_response).outgoing_egresses@,
        ) + egress_views(egress_tuple_views(egress_messages@)),
        final(invocation_response).outgoing_messages@ == old(
            invocation_response,
        ).outgoing_messages@,
        final(invocation_response).delayed_invocations@ == old(
            invocation_response,
        ).delayed_invocations@,
        final(invocation_response).state_mutations@ == old(invocation_response).state_mutations@,
{
    let n = egress_messages.len();
    let mut i: usize = 0;
    proof {
        assert(seq_view(invocation_response.outgoing_egresses@) =~= seq_view(
            old(invocation_response).outgoing_egresses@,
        ) + egress_views(egress_tuple_views(egress_messages@)).take(0));
    }
    while i < n
        invariant
            n == egress_messages.len(),
            i <= n,
            seq_view(invocation_response.outgoing_egresses@) == seq_view(
                old(invocation_response).outgoing_egresses@,
            ) + egress_views(egress_tuple_views(egress_messages@)).take(i as int),
            invocation_response.outgoing_messages@ == old(invocation_response).outgoing_messages@,
            invocation_response.delayed_invocations@ == old(
                invocation_response,
            ).delayed_invocations@,
            invocation_response.state_mutations@ == old(invocation_response).state_mutations@,
        decreases n - i,
    {
        let m = &egress_messages[i];
        proof {
            let pre = seq_view(old(invocation_response).outgoing_egresses@);
            assert(seq_view(invocation_response.outgoing_egresses@).len() == pre.len() + i);
        }
        let ghost before = invocation_response.outgoing_egresses@;
        invocation_response.outgoing_egresses.push(
            EgressMessage {
                egress_namespace: m.0.namespace.clone(),
                egress_type: m.0.name.clone(),
                argument: TypedValue::new(m.1.clone(), clone_bytes(&m.2)),
            },
        );
        proof {
            let views = egress_views(egress_tuple_views(egress_messages@));
            let pre = seq_view(old(invocation_response).outgoing_egresses@);
            assert(invocation_response.outgoing_egresses@ == before.push(invocation_response.outgoing_egresses@.last()));
            assert(seq_view(invocation_response.outgoing_egresses@).len() == seq_view(before).len() + 1);
            assert(seq_view(invocation_response.outgoing_egresses@).len() == pre.len() + i + 1);
            assert(seq_view(invocation_response.outgoing_egresses@)[pre.len() + i as int] == views[i as int]);
            assert(seq_view(invocation_response.outgoing_egresses@) =~= seq_view(before).push(
                seq_view(invocation_response.outgoing_egresses@).last(),
            ));
            assert(pre + views.take(i as int + 1) =~= (pre + views.take(i as int)).push(
                views[i as int],
            ));
            assert(seq_view(invocation_response.outgoing_egresses@) == pre + views.take(i as int + 1));
        }
        i = i + 1;
    }
    proof {
        let views = egress_views(egress_tuple_views(egress_messages@));
        assert(views.take(n as int) =~= views);
    }
}

/// Writes the coalesced mutation list into the response. An update carries
/// the new payload; a deletion carries the mutation kind alone.
fn serialize_state_updates(
    invocation_response: &mut InvocationResponse,
    state_updates: &Vec<StateUpdate>,
)
    ensures
        seq_view(final(invocation_response).state_mutations@) == seq_view(
            old(invocation_response).state_mutations@,
        ) + mutation_views(seq_view(state_updates@)),
        final(invocation_response).outgoing_messages@ == old(
            invocation_response,
        ).outgoing_messages@,
        final(invocation_response).delayed_invocations@ == old(
            invocation_response,
        ).delayed_invocations@,
        final(invocation_response).outgoing_egresses@ == old(
            invocation_response,
        ).outgoing_egresses@,
{
    let n = state_updates.len();
    let mut i: usize = 0;
    proof {
        assert(seq_view(invocation_response.state_mutations@) =~= seq_view(
            old(invocation_response).state_mutations@,
        ) + mutation_views(seq_view(state_updates@)).take(0));
    }
    while i < n
        invariant
            n == state_updates.len(),
            i <= n,
            seq_view(invocation_response.state_mutations@) == seq_view(
                old(invocation_response).state_mutations@,
            ) + mutation_views(seq_view(state_updates@)).take(i as int),
            invocation_response.outgoing_messages@ == old(invocation_response).outgoing_messages@,
            invocation_response.delayed_invocations@ == old(
                invocation_response,
            ).delayed_invocations@,
            invocation_response.outgoing_egresses@ == old(invocation_response).outgoing_egresses@,
        decreases n - i,
    {
        let mutation = match &state_updates[i] {
            StateUpdate::Delete(spec_base) => PersistedValueMutation {
                mutation_type: MutationType::Delete,
                state_name: spec_base.name.clone(),
                state_value: None,
            },
            StateUpdate::Update(spec_base, bytes) => PersistedValueMutation {
                mutation_type: MutationType::Modify,
                state_name: spec_base.name.clone(),
                state_value: Some(TypedValue::new(spec_base.typename.clone(), clone_bytes(bytes))),
            },
        };
        proof {
            let pre = seq_view(old(invocation_response).state_mutations@);
            assert(seq_view(invocation_response.state_mutations@).len() == pre.len() + i);
        }
        let ghost before = invocation_response.state_mutations@;
        invocation_response.state_mutations.push(mutation);
        proof {
            let views = mutation_views(seq_view(state_updates@));
            let pre = seq_view(old(invocation_response).state_mutations@);
            assert(invocation_response.state_mutations@ == before.push(invocation_response.state_mutations@.last()));
            assert(seq_view(invocation_response.state_mutations@).len() == seq_view(before).len() + 1);
            assert(seq_view(invocation_response.state_mutations@).len() == pre.len() + i + 1);
            assert(seq_view(invocation_response.state_mutations@)[pre.len() + i as int] == views[i as int]);
            assert(seq_view(invocation_response.state_mutations@) =~= seq_view(before).push(
                seq_view(invocation_response.state_mutations@).last(),
            ));
            assert(pre + views.take(i as int + 1) =~= (pre + views.take(i as int)).push(
                views[i as int],
            ));
            assert(seq_view(invocation_response.state_mutations@) == pre + views.take(i as int + 1));
        }
        i = i + 1;
    }
    proof {
        let views = mutation_views(seq_view(state_updates@));
        assert(views.take(n as int) =~= views);
    }
}

/// The batch loop's accumulator after the first `k` invocations of the batch
/// have run.
pub open spec fn batch_after<F: InvokableFunction>(
    f: F,
    target: AddressView,
    state: Seq<PersistedValueView>,
    invocations: Seq<InvocationView>,
    k: int,
) -> BatchStateView {
    run_batch(f, target, initial_batch_state(seed_cells(state)), invocations.take(k))
}

impl<F: InvokableFunction> FunctionRegistry<F> {
    /// Translates one batch into one response: the batch's target selects the
    /// handler, the queued invocations run in order — each seeing the state
    /// effects of the previous ones — and the response carries the
    /// accumulated effects, with the state writes coalesced to at most one
    /// mutation per cell.
    ///
    /// When at least one invocation is queued and cells declared by the
    /// handler are missing from the snapshot, the response instead lists
    /// exactly the missing declarations and no invocation runs. An
    /// unregistered target function type is the one error.
    pub fn invoke_from_proto(&self, to_function: ToFunction) -> (r: Result<
        FromFunction,
        InvocationError,
    >)
        ensures
            ({
                let s = invocation_result(self@, to_function@);
                &&& r is Ok <==> s is Ok
                &&& r is Ok ==> r->Ok_0@ == s->Ok_0
                &&& r is Err ==> r->Err_0@ == s->Err_0
            }),
    {
        let ToFunction { target, state, invocations } = to_function;

        let entry = match self.find_entry(&target.function_type) {
            Option::None => {
                return Err(InvocationError::FunctionNotFound(target.function_type));
            },
            Option::Some(entry) => entry,
        };

        let mut working: Vec<StateCell> = parse_persisted_values(&state);

        if invocations.len() > 0 {
            let missing = crate::function_registry::missing_states_of(
                &entry.value_specs,
                &working,
            );
            if missing.len() > 0 {
                let incomplete = build_incomplete_context(&missing);
                return Ok(FromFunction::IncompleteInvocationContext(incomplete));
            }
        }

        let mut invocation_response = InvocationResponse {
            outgoing_messages: Vec::new(),
            delayed_invocations: Vec::new(),
            outgoing_egresses: Vec::new(),
            state_mutations: Vec::new(),
        };
        let mut coalesced_state: Vec<StateUpdate> = Vec::new();

        let n = invocations.len();
        let mut k: usize = 0;
        proof {
            assert(seq_view(invocations@).take(0) =~= Seq::<InvocationView>::empty());
            assert(seq_view(coalesced_state@) =~= Seq::<StateUpdateView>::empty());
            assert(seq_view(invocation_response.outgoing_messages@)
                =~= Seq::<FromFunctionInvocationView>::empty());
            assert(seq_view(invocation_response.delayed_invocations@)
                =~= Seq::<FromFunctionDelayedInvocationView>::empty());
            assert(seq_view(invocation_response.outgoing_egresses@)
                =~= Seq::<EgressMessageView>::empty());
            assert(seq_view(invocation_response.state_mutations@)
                =~= Seq::<PersistedValueMutationView>::empty());
        }
        while k < n
            invariant
                n == invocations.len(),
                k <= n,
                spec_lookup(self@, target@.function_type) == Some(entry@),
                ({
                    let st = batch_after(
                        entry@.function,
                        target@,
                        seq_view(state@),
                        seq_view(invocations@),
                        k as int,
                    );
                    &&& seq_view(working@) == st.working
                    &&& seq_view(invocation_response.outgoing_messages@) == st.outgoing
                    &&& seq_view(invocation_response.delayed_invocations@) == st.delayed
                    &&& seq_view(invocation_response.outgoing_egresses@) == st.egresses
                    &&& seq_view(coalesced_state@) == st.coalesced
                    &&& invocation_response.state_mutations@.len() == 0
                }),
            decreases n - k,
        {
            let ghost st = batch_after(
                entry@.function,
                target@,
                seq_view(state@),
                seq_view(invocations@),
                k as int,
            );
            let caller = &invocations[k].caller;
            let message = Message::new(invocations[k].argument.duplicate());
            let context = Context::new(&working, &target, caller);
            let effects = entry.function.invoke(context, message);
            let ghost eff = effects@;
            proof {
                assert(eff == entry@.function.effects_spec(
                    ContextView {
                        state: st.working,
                        self_address: target@,
                        caller_address: seq_view(invocations@)[k as int].caller,
                    },
                    seq_view(invocations@)[k as int].argument,
                ));
            }
            let Effects {
                invocations: out_messages,
                delayed_invocations: out_delayed,
                cancelled_delayed_invocations: out_cancelled,
                egress_messages: out_egresses,
                state_updates: out_updates,
            } = effects;

            serialize_invocation_messages(&mut invocation_response, &out_messages);
            serialize_delayed_invocation_messages(&mut invocation_response, &out_delayed);
            serialize_cancelled_delayed_messages(&mut invocation_response, &out_cancelled);
            serialize_egress_messages(&mut invocation_response, &out_egresses);
            update_state(&mut working, &mut coalesced_state, &out_updates);

            proof {
                let invs = seq_view(invocations@);
                assert(invs.take(k as int + 1).drop_last() =~= invs.take(k as int));
                assert(invs.take(k as int + 1).last() == invs[k as int]);
                let st1 = batch_step(entry@.function, target@, st, invs[k as int]);
                assert(seq_view(working@) == st1.working);
                assert(seq_view(invocation_response.outgoing_messages@) == st1.outgoing);
                assert(seq_view(invocation_response.delayed_invocations@) =~= st1.delayed);
                assert(seq_view(invocation_response.outgoing_egresses@) == st1.egresses);
                assert(seq_view(coalesced_state@) == st1.coalesced);
                assert(batch_after(
                    entry@.function,
                    target@,
                    seq_view(state@),
                    seq_view(invocations@),
                    k as int + 1,
                ) == st1);
            }
            k = k + 1;
        }

        serialize_state_updates(&mut invocation_response, &coalesced_state);

        proof {
            assert(seq_view(invocations@).take(n as int) =~= seq_view(invocations@));
        }
        Ok(FromFunction::InvocationResponse(invocation_response))
    }
}

/// Builds the incomplete-context response listing the given missing cell
/// declarations, in order.
fn build_incomplete_context(missing: &Vec<ValueSpecBase>) -> (r: IncompleteInvocationContext)
    ensures
        r@ == (IncompleteInvocationContextView {
            missing_values: missing_value_views(seq_view(missing@)),
        }),
{
    let mut missing_values: Vec<PersistedValueSpec> = Vec::new();
    let n = missing.len();
    let mut i: usize = 0;
    proof {
        assert(seq_view(missing_values@) =~= missing_value_views(seq_view(missing@)).take(0));
    }
    while i < n
        invariant
            n == missing.len(),
            i <= n,
            seq_view(missing_values@) == missing_value_views(seq_view(missing@)).take(i as int),
        decreases n - i,
    {
        let m = &missing[i];
        proof {
            assert(seq_view(missing_values@).len() == i);
        }
        let ghost before = missing_values@;
        missing_values.push(
            PersistedValueSpec {
                state_name: m.name.clone(),
                expiration_spec: expiration_spec_of(m.expiration),
                type_typename: m.typename.clone(),
            },
        );
        proof {
            let views = missing_value_views(seq_view(missing@));
            assert(missing_values@ == before.push(missing_values@.last()));
            assert(seq_view(missing_values@).len() == i + 1);
            assert(seq_view(missing_values@)[i as int] == views[i as int]);
            assert(seq_view(missing_values@) =~= seq_view(before).push(
                seq_view(missing_values@).last(),
            ));
            assert(views.take(i as int + 1) =~= views.take(i as int).push(views[i as int]));
            assert(seq_view(missing_values@) == views.take(i as int + 1));
        }
        i = i + 1;
    }
    proof {
        let views = missing_value_views(seq_view(missing@));
        assert(views.take(n as int) =~= views);
    }
    IncompleteInvocationContext { missing_values }
}

} // verus!
