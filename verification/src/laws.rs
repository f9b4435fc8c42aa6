//! The engine's guarantees, stated and proved over the batch model: what a
//! state write makes visible, what a deletion leaves behind, the shape of a
//! response, the coalescing of mutations, and the order of the response
//! lists.

use vstd::prelude::*;

use crate::address::AddressView;
use crate::context::{ContextView, StateCellView, cell_index, find_cell, lemma_cell_index,
    lemma_cell_index_at, lemma_cell_index_absent};
use crate::effects::{EffectsView, StateUpdateView};
use crate::function_registry::{InvokableFunction, missing_from};
use crate::invocation_bridge::{BatchStateView, apply_update, apply_updates, coalesce,
    coalesce_one, initial_batch_state, run_batch, update_index, upsert_cell};
use crate::request_reply::{InvocationView, PersistedValueView};
use crate::value_spec::ValueSpecBaseView;

verus! {

/// Setting a cell changes exactly that cell's lookup: the named cell is found
/// with the new type name and bytes, and every other name finds what it found
/// before.
pub proof fn lemma_upsert_find(
    working: Seq<StateCellView>,
    name: Seq<char>,
    typename: Seq<char>,
    bytes: Seq<u8>,
)
    ensures
        find_cell(upsert_cell(working, name, typename, bytes), name) == Some(
            StateCellView { name, typename, bytes },
        ),
        forall|other: Seq<char>|
            other != name ==> #[trigger] find_cell(upsert_cell(working, name, typename, bytes), other)
                == find_cell(working, other),
{
    let w1 = upsert_cell(working, name, typename, bytes);
    let i = cell_index(working, name);
    lemma_cell_index(working, name);
    if i == -1 {
        assert forall|j: int| 0 <= j < working.len() implies w1[j].name != name by {}
        lemma_cell_index_at(w1, name, working.len() as int);
    } else {
        lemma_cell_index_at(w1, name, i);
    }
    assert forall|other: Seq<char>| other != name implies #[trigger] find_cell(w1, other)
        == find_cell(working, other) by {
        lemma_cell_index(working, other);
        lemma_cell_index(w1, other);
        let k = cell_index(working, other);
        if k == -1 {
            assert forall|j: int| 0 <= j < w1.len() implies w1[j].name != other by {
                if j < working.len() {
                    assert(working[j].name != other);
                }
            }
            lemma_cell_index_absent(w1, other);
        } else {
            assert(w1[k].name == other);
            assert forall|j: int| 0 <= j < k implies w1[j].name != other by {
                assert(working[j].name != other);
            }
            lemma_cell_index_at(w1, other, k);
            assert(w1[k] == working[k]);
        }
    }
}

/// What one state effect makes visible to the rest of the batch, via the
/// lookups `get_state` performs: an update of a cell is found as the written
/// bytes under the cell's declared type name; a deletion is found as
/// "allocated, empty" — the cell stays present with empty bytes, it does not
/// become absent. Every other cell is found unchanged.
pub proof fn lemma_apply_update_find(working: Seq<StateCellView>, u: StateUpdateView)
    ensures
        ({
            let found = find_cell(apply_update(working, u), u.cell_name());
            match u {
                StateUpdateView::Update(spec_base, bytes) => found == Some(
                    StateCellView {
                        name: spec_base.name,
                        typename: spec_base.typename,
                        bytes,
                    },
                ),
                StateUpdateView::Delete(spec_base) => found == Some(
                    StateCellView {
                        name: spec_base.name,
                        typename: spec_base.typename,
                        bytes: Seq::empty(),
                    },
                ),
            }
        }),
        forall|other: Seq<char>|
            other != u.cell_name() ==> #[trigger] find_cell(apply_update(working, u), other)
                == find_cell(working, other),
{
    match u {
        StateUpdateView::Update(spec_base, bytes) => {
            lemma_upsert_find(working, spec_base.name, spec_base.typename, bytes);
        },
        StateUpdateView::Delete(spec_base) => {
            lemma_upsert_find(working, spec_base.name, spec_base.typename, Seq::empty());
        },
    }
}

/// Deletion persists in the working map as "allocated, empty", not as
/// "absent": after a deletion the cell is still found, with empty bytes — so
/// a `get_state` later in the same batch answers `None`, and the
/// missing-state check, which asks only whether the name is found, does not
/// report the cell and no incomplete-invocation-context response is
/// triggered on its account.
pub proof fn lemma_delete_keeps_cell(working: Seq<StateCellView>, spec_base: ValueSpecBaseView)
    ensures
        find_cell(apply_update(working, StateUpdateView::Delete(spec_base)), spec_base.name)
            == Some(
            StateCellView {
                name: spec_base.name,
                typename: spec_base.typename,
                bytes: Seq::empty(),
            },
        ),
        find_cell(
            apply_update(working, StateUpdateView::Delete(spec_base)),
            spec_base.name,
        ) is Some,
{
    lemma_apply_update_find(working, StateUpdateView::Delete(spec_base));
}

/// The effects of one invocation, as the batch loop computes them: the
/// handler's model applied to the working state the previous invocations
/// left.
pub open spec fn effects_at<F: InvokableFunction>(
    f: F,
    target: AddressView,
    st: BatchStateView,
    invocations: Seq<InvocationView>,
    k: int,
) -> EffectsView {
    f.effects_spec(
        ContextView {
            state: run_batch(f, target, st, invocations.take(k)).working,
            self_address: target,
            caller_address: invocations[k].caller,
        },
        invocations[k].argument,
    )
}

/// Effects of invocation `k + 1` observe the post-effects state of
/// invocation `k`: the working state handed to invocation `k + 1` is exactly
/// the state handed to invocation `k` with invocation `k`'s state effects
/// applied — so together with [`lemma_apply_update_find`], what invocation
/// `k` wrote is what invocation `k + 1`'s `get_state` finds.
pub proof fn lemma_in_batch_visibility<F: InvokableFunction>(
    f: F,
    target: AddressView,
    st: BatchStateView,
    invocations: Seq<InvocationView>,
    k: int,
)
    requires
        0 <= k < invocations.len(),
    ensures
        run_batch(f, target, st, invocations.take(k + 1)).working == apply_updates(
            run_batch(f, target, st, invocations.take(k)).working,
            effects_at(f, target, st, invocations, k).state_updates,
        ),
{
    let pre = invocations.take(k + 1);
    assert(pre.drop_last() =~= invocations.take(k));
    assert(pre.last() == invocations[k]);
}

/// The cell a state effect leaves behind: the written bytes for an update,
/// empty bytes for a deletion, under the effect's declared type name.
pub open spec fn cell_of_update(u: StateUpdateView) -> StateCellView {
    match u {
        StateUpdateView::Update(spec_base, bytes) => StateCellView {
            name: spec_base.name,
            typename: spec_base.typename,
            bytes,
        },
        StateUpdateView::Delete(spec_base) => StateCellView {
            name: spec_base.name,
            typename: spec_base.typename,
            bytes: Seq::empty(),
        },
    }
}

/// What one invocation's state effects, applied in order, make visible: for
/// each cell, the lookup finds what the last effect concerning it left
/// behind, and a cell no effect concerned is found unchanged.
pub proof fn lemma_apply_updates_find(
    working: Seq<StateCellView>,
    updates: Seq<StateUpdateView>,
    name: Seq<char>,
)
    ensures
        ({
            let li = crate::laws::last_update_index(updates, name);
            if li != -1 {
                find_cell(apply_updates(working, updates), name) == Some(
                    cell_of_update(updates[li]),
                )
            } else {
                find_cell(apply_updates(working, updates), name) == find_cell(working, name)
            }
        }),
    decreases updates.len(),
{
    if updates.len() != 0 {
        lemma_apply_updates_find(working, updates.drop_last(), name);
        lemma_last_update_index(updates, name);
        lemma_last_update_index(updates.drop_last(), name);
        let u = updates.last();
        lemma_apply_update_find(apply_updates(working, updates.drop_last()), u);
        if u.cell_name() != name {
            assert(last_update_index(updates, name) == last_update_index(
                updates.drop_last(),
                name,
            ));
        }
    }
}

/// A name is found in the seeded working map exactly when some snapshot cell
/// carries it: seeding neither invents nor loses names.
pub proof fn lemma_seed_names(state: Seq<PersistedValueView>, name: Seq<char>)
    ensures
        find_cell(crate::invocation_bridge::seed_cells(state), name) is Some <==> exists|i: int|
            0 <= i < state.len() && state[i].state_name == name,
    decreases state.len(),
{
    let seeded = crate::invocation_bridge::seed_cells(state);
    if state.len() == 0 {
        lemma_cell_index_absent(seeded, name);
    } else {
        lemma_seed_names(state.drop_last(), name);
        let last = state.last();
        lemma_upsert_find(
            crate::invocation_bridge::seed_cells(state.drop_last()),
            last.state_name,
            last.state_value.typename,
            last.state_value.value,
        );
        if name == last.state_name {
            assert(state[state.len() - 1].state_name == name);
        } else {
            assert forall|i: int| 0 <= i < state.drop_last().len() implies state.drop_last()[i]
                == state[i] by {}
            if exists|i: int| 0 <= i < state.len() && state[i].state_name == name {
                let i = choose|i: int| 0 <= i < state.len() && state[i].state_name == name;
                assert(i < state.len() - 1);
                assert(state.drop_last()[i].state_name == name);
            }
        }
    }
}

/// The missing-state list is exactly the declared cells whose names no state
/// cell carries, kept in declaration order.
pub proof fn lemma_missing_from_is_filter(
    specs: Seq<ValueSpecBaseView>,
    state: Seq<StateCellView>,
)
    ensures
        missing_from(specs, state) == specs.filter(
            |spec_base: ValueSpecBaseView| find_cell(state, spec_base.name) is None,
        ),
    decreases specs.len(),
{
    reveal(Seq::filter);
    if specs.len() > 0 {
        lemma_missing_from_is_filter(specs.drop_last(), state);
    }
}

/// For every batch aimed at a registered function, the translation yields a
/// response — never an error — and that response is an
/// incomplete-invocation-context exactly when the batch queues at least one
/// invocation and declared cells are missing from the snapshot. In that case
/// it lists exactly the declared cells whose names are absent from the
/// snapshot, in declaration order, and no invocation runs; in every other
/// case it is the invocation response of running the whole batch.
pub proof fn lemma_response_shape<F: InvokableFunction>(
    entries: Seq<crate::function_registry::RegistryEntryView<F>>,
    to_function: crate::request_reply::ToFunctionView,
)
    requires
        crate::function_registry::spec_lookup(entries, to_function.target.function_type) is Some,
    ensures
        ({
            let entry = crate::function_registry::spec_lookup(
                entries,
                to_function.target.function_type,
            )->0;
            let working = crate::invocation_bridge::seed_cells(to_function.state);
            let missing = missing_from(entry.value_specs, working);
            let r = crate::invocation_bridge::invocation_result(entries, to_function);
            &&& r is Ok
            &&& (r->Ok_0 is IncompleteInvocationContext <==> to_function.invocations.len() > 0
                && missing.len() > 0)
            &&& (r->Ok_0 is InvocationResponse <==> !(to_function.invocations.len() > 0
                && missing.len() > 0))
            &&& missing == entry.value_specs.filter(
                (
                |spec_base: ValueSpecBaseView|
                    !exists|i: int|
                        0 <= i < to_function.state.len()
                            && to_function.state[i].state_name == spec_base.name
                ),
            )
            &&& r->Ok_0 is IncompleteInvocationContext
                ==> r->Ok_0->IncompleteInvocationContext_0.missing_values
                == crate::invocation_bridge::missing_value_views(missing)
        }),
{
    let entry = crate::function_registry::spec_lookup(
        entries,
        to_function.target.function_type,
    )->0;
    let working = crate::invocation_bridge::seed_cells(to_function.state);
    lemma_missing_from_is_filter(entry.value_specs, working);
    let absent_in_working = |spec_base: ValueSpecBaseView| find_cell(working, spec_base.name)
        is None;
    let absent_in_state = |spec_base: ValueSpecBaseView|
        !exists|i: int|
            0 <= i < to_function.state.len() && to_function.state[i].state_name == spec_base.name;
    assert forall|spec_base: ValueSpecBaseView|
        #[trigger] absent_in_working(spec_base) == absent_in_state(spec_base) by {
        lemma_seed_names(to_function.state, spec_base.name);
    }
    lemma_filter_congruence(entry.value_specs, absent_in_working, absent_in_state);
}

/// The per-invocation effects of a batch, in invocation order: each entry is
/// the handler's model applied to the working state the previous invocations
/// left.
pub open spec fn batch_effects<F: InvokableFunction>(
    f: F,
    target: AddressView,
    st: BatchStateView,
    invocations: Seq<InvocationView>,
) -> Seq<EffectsView>
    decreases invocations.len(),
{
    if invocations.len() == 0 {
        Seq::empty()
    } else {
        batch_effects(f, target, st, invocations.drop_last()).push(
            f.effects_spec(
                ContextView {
                    state: run_batch(f, target, st, invocations.drop_last()).working,
                    self_address: target,
                    caller_address: invocations.last().caller,
                },
                invocations.last().argument,
            ),
        )
    }
}

/// The outgoing messages of the whole batch: each invocation's, in the order
/// its effects recorded them, concatenated in invocation order.
pub open spec fn concat_outgoing(effects: Seq<EffectsView>) -> Seq<
    crate::request_reply::FromFunctionInvocationView,
>
    decreases effects.len(),
{
    if effects.len() == 0 {
        Seq::empty()
    } else {
        concat_outgoing(effects.drop_last()) + crate::invocation_bridge::outgoing_views(
            effects.last().invocations,
        )
    }
}

/// The delayed entries of the whole batch: each invocation's delayed
/// messages, then its cancellations, each in recording order, concatenated
/// in invocation order.
pub open spec fn concat_delayed(effects: Seq<EffectsView>) -> Seq<
    crate::request_reply::FromFunctionDelayedInvocationView,
>
    decreases effects.len(),
{
    if effects.len() == 0 {
        Seq::empty()
    } else {
        concat_delayed(effects.drop_last()) + crate::invocation_bridge::delayed_views(
            effects.last().delayed_invocations,
        ) + crate::invocation_bridge::cancellation_views(
            effects.last().cancelled_delayed_invocations,
        )
    }
}

/// The egress records of the whole batch, in recording order, concatenated
/// in invocation order.
pub open spec fn concat_egresses(effects: Seq<EffectsView>) -> Seq<
    crate::request_reply::EgressMessageView,
>
    decreases effects.len(),
{
    if effects.len() == 0 {
        Seq::empty()
    } else {
        concat_egresses(effects.drop_last()) + crate::invocation_bridge::egress_views(
            effects.last().egress_messages,
        )
    }
}

/// All state effects of the whole batch, in recording order, concatenated in
/// invocation order.
pub open spec fn concat_updates(effects: Seq<EffectsView>) -> Seq<StateUpdateView>
    decreases effects.len(),
{
    if effects.len() == 0 {
        Seq::empty()
    } else {
        concat_updates(effects.drop_last()) + effects.last().state_updates
    }
}

/// Insertion order is preserved: the response lists are exactly the
/// concatenation, in invocation order, of what each invocation's effects
/// appended — outgoing messages, delayed messages followed by that
/// invocation's cancellations, and egress records — each in the order the
/// effects recorded them.
pub proof fn lemma_response_order<F: InvokableFunction>(
    f: F,
    target: AddressView,
    st: BatchStateView,
    invocations: Seq<InvocationView>,
)
    ensures
        ({
            let fin = run_batch(f, target, st, invocations);
            let effects = batch_effects(f, target, st, invocations);
            &&& fin.outgoing == st.outgoing + concat_outgoing(effects)
            &&& fin.delayed == st.delayed + concat_delayed(effects)
            &&& fin.egresses == st.egresses + concat_egresses(effects)
        }),
    decreases invocations.len(),
{
    let fin = run_batch(f, target, st, invocations);
    let effects = batch_effects(f, target, st, invocations);
    if invocations.len() == 0 {
        assert(st.outgoing + concat_outgoing(effects) =~= st.outgoing);
        assert(st.delayed + concat_delayed(effects) =~= st.delayed);
        assert(st.egresses + concat_egresses(effects) =~= st.egresses);
    } else {
        lemma_response_order(f, target, st, invocations.drop_last());
        let prev = run_batch(f, target, st, invocations.drop_last());
        let prev_effects = batch_effects(f, target, st, invocations.drop_last());
        let eff = effects.last();
        assert(effects.drop_last() == prev_effects);
        assert(st.outgoing + concat_outgoing(effects) =~= (st.outgoing + concat_outgoing(
            prev_effects,
        )) + crate::invocation_bridge::outgoing_views(eff.invocations));
        assert(st.delayed + concat_delayed(effects) =~= ((st.delayed + concat_delayed(
            prev_effects,
        )) + crate::invocation_bridge::delayed_views(eff.delayed_invocations))
            + crate::invocation_bridge::cancellation_views(eff.cancelled_delayed_invocations));
        assert(st.egresses + concat_egresses(effects) =~= (st.egresses + concat_egresses(
            prev_effects,
        )) + crate::invocation_bridge::egress_views(eff.egress_messages));
    }
}

/// Coalescing a concatenation records the first list, then the second.
proof fn lemma_coalesce_concat(
    acc: Seq<StateUpdateView>,
    a: Seq<StateUpdateView>,
    b: Seq<StateUpdateView>,
)
    ensures
        coalesce(acc, a + b) == coalesce(coalesce(acc, a), b),
    decreases b.len(),
{
    if b.len() == 0 {
        assert(a + b =~= a);
    } else {
        assert((a + b).drop_last() =~= a + b.drop_last());
        assert((a + b).last() == b.last());
        lemma_coalesce_concat(acc, a, b.drop_last());
    }
}

/// Applying a concatenation of state effects applies the first list, then
/// the second.
proof fn lemma_apply_updates_concat(
    working: Seq<StateCellView>,
    a: Seq<StateUpdateView>,
    b: Seq<StateUpdateView>,
)
    ensures
        apply_updates(working, a + b) == apply_updates(apply_updates(working, a), b),
    decreases b.len(),
{
    if b.len() == 0 {
        assert(a + b =~= a);
    } else {
        assert((a + b).drop_last() =~= a + b.drop_last());
        assert((a + b).last() == b.last());
        lemma_apply_updates_concat(working, a, b.drop_last());
    }
}

/// The batch's working map and coalesced mutations are those of all the
/// batch's state effects, taken as one list in recording order.
pub proof fn lemma_run_batch_updates<F: InvokableFunction>(
    f: F,
    target: AddressView,
    st: BatchStateView,
    invocations: Seq<InvocationView>,
)
    ensures
        run_batch(f, target, st, invocations).coalesced == coalesce(
            st.coalesced,
            concat_updates(batch_effects(f, target, st, invocations)),
        ),
        run_batch(f, target, st, invocations).working == apply_updates(
            st.working,
            concat_updates(batch_effects(f, target, st, invocations)),
        ),
    decreases invocations.len(),
{
    let effects = batch_effects(f, target, st, invocations);
    if invocations.len() == 0 {
    } else {
        lemma_run_batch_updates(f, target, st, invocations.drop_last());
        let prev_effects = batch_effects(f, target, st, invocations.drop_last());
        let eff = effects.last();
        assert(effects.drop_last() == prev_effects);
        lemma_coalesce_concat(st.coalesced, concat_updates(prev_effects), eff.state_updates);
        lemma_apply_updates_concat(st.working, concat_updates(prev_effects), eff.state_updates);
    }
}

/// Recording one state effect changes exactly its cell's entry of the
/// coalesced list: that cell's entry becomes the effect, and every other
/// cell's entry — and its presence — is unchanged.
proof fn lemma_coalesce_one_find(acc: Seq<StateUpdateView>, u: StateUpdateView)
    ensures
        update_index(coalesce_one(acc, u), u.cell_name()) != -1,
        coalesce_one(acc, u)[update_index(coalesce_one(acc, u), u.cell_name())] == u,
        forall|other: Seq<char>|
            other != u.cell_name() ==> ((#[trigger] update_index(coalesce_one(acc, u), other)
                != -1) <==> update_index(acc, other) != -1),
        forall|other: Seq<char>|
            other != u.cell_name() && update_index(acc, other) != -1 ==> #[trigger] coalesce_one(
                acc,
                u,
            )[update_index(coalesce_one(acc, u), other)] == acc[update_index(acc, other)],
{
    let c = coalesce_one(acc, u);
    let name = u.cell_name();
    let i = update_index(acc, name);
    crate::invocation_bridge::lemma_update_index(acc, name);
    if i == -1 {
        assert forall|j: int| 0 <= j < acc.len() implies c[j].cell_name() != name by {}
        crate::invocation_bridge::lemma_update_index_at(c, name, acc.len() as int);
    } else {
        crate::invocation_bridge::lemma_update_index_at(c, name, i);
    }
    assert forall|other: Seq<char>| other != name implies (#[trigger] update_index(c, other) != -1
        <==> update_index(acc, other) != -1) && (update_index(acc, other) != -1 ==> c[update_index(
        c,
        other,
    )] == acc[update_index(acc, other)]) by {
        crate::invocation_bridge::lemma_update_index(acc, other);
        crate::invocation_bridge::lemma_update_index(c, other);
        let k = update_index(acc, other);
        if k == -1 {
            assert forall|j: int| 0 <= j < c.len() implies c[j].cell_name() != other by {
                if j < acc.len() {
                    assert(acc[j].cell_name() != other);
                }
            }
            crate::invocation_bridge::lemma_update_index_absent(c, other);
        } else {
            assert(c[k].cell_name() == other);
            assert forall|j: int| 0 <= j < k implies c[j].cell_name() != other by {
                assert(acc[j].cell_name() != other);
            }
            crate::invocation_bridge::lemma_update_index_at(c, other, k);
            assert(c[k] == acc[k]);
        }
    }
}

/// The index of the last state effect concerning the named cell, or `-1`
/// when none does.
pub open spec fn last_update_index(updates: Seq<StateUpdateView>, name: Seq<char>) -> int
    decreases updates.len(),
{
    if updates.len() == 0 {
        -1
    } else if updates.last().cell_name() == name {
        updates.len() - 1
    } else {
        last_update_index(updates.drop_last(), name)
    }
}

/// The index returned by [`last_update_index`] is in range and is the last
/// index whose effect concerns the name.
pub proof fn lemma_last_update_index(updates: Seq<StateUpdateView>, name: Seq<char>)
    ensures
        last_update_index(updates, name) == -1 ==> forall|i: int|
            0 <= i < updates.len() ==> updates[i].cell_name() != name,
        last_update_index(updates, name) != -1 ==> {
            &&& 0 <= last_update_index(updates, name) < updates.len()
            &&& updates[last_update_index(updates, name)].cell_name() == name
            &&& forall|i: int|
                last_update_index(updates, name) < i < updates.len() ==> updates[i].cell_name()
                    != name
        },
    decreases updates.len(),
{
    if updates.len() != 0 && updates.last().cell_name() != name {
        lemma_last_update_index(updates.drop_last(), name);
        assert forall|i: int| 0 <= i < updates.drop_last().len() implies updates.drop_last()[i]
            == updates[i] by {}
        let li = last_update_index(updates, name);
        if li == -1 {
            assert forall|i: int| 0 <= i < updates.len() implies updates[i].cell_name()
                != name by {
                if i < updates.len() - 1 {
                    assert(updates.drop_last()[i].cell_name() != name);
                }
            }
        } else {
            assert(updates[li] == updates.drop_last()[li]);
            assert forall|i: int| li < i < updates.len() implies updates[i].cell_name()
                != name by {
                if i < updates.len() - 1 {
                    assert(updates.drop_last()[i].cell_name() != name);
                }
            }
        }
    }
}

/// Coalescing keeps at most one entry per cell name.
proof fn lemma_coalesce_unique(acc: Seq<StateUpdateView>, updates: Seq<StateUpdateView>)
    requires
        forall|i: int, j: int|
            0 <= i < j < acc.len() ==> acc[i].cell_name() != acc[j].cell_name(),
    ensures
        forall|i: int, j: int|
            0 <= i < j < coalesce(acc, updates).len() ==> coalesce(acc, updates)[i].cell_name()
                != coalesce(acc, updates)[j].cell_name(),
    decreases updates.len(),
{
    if updates.len() != 0 {
        lemma_coalesce_unique(acc, updates.drop_last());
        let c0 = coalesce(acc, updates.drop_last());
        let u = updates.last();
        let c = coalesce_one(c0, u);
        crate::invocation_bridge::lemma_update_index(c0, u.cell_name());
        assert forall|i: int, j: int| 0 <= i < j < c.len() implies c[i].cell_name()
            != c[j].cell_name() by {
            let idx = update_index(c0, u.cell_name());
            if idx == -1 {
                if j < c0.len() {
                } else {
                    assert(c[j] == u);
                    assert(c0[i].cell_name() != u.cell_name());
                }
            }
        }
    }
}

/// What coalescing a list of state effects records for each cell: the last
/// effect concerning that cell, when the list holds any; otherwise whatever
/// the accumulator already recorded, unchanged.
proof fn lemma_coalesce_last_wins(
    acc: Seq<StateUpdateView>,
    updates: Seq<StateUpdateView>,
    name: Seq<char>,
)
    ensures
        ({
            let c = coalesce(acc, updates);
            let li = last_update_index(updates, name);
            if li != -1 {
                update_index(c, name) != -1 && c[update_index(c, name)] == updates[li]
            } else {
                (update_index(c, name) != -1 <==> update_index(acc, name) != -1) && (update_index(
                    acc,
                    name,
                ) != -1 ==> c[update_index(c, name)] == acc[update_index(acc, name)])
            }
        }),
    decreases updates.len(),
{
    let c = coalesce(acc, updates);
    let li = last_update_index(updates, name);
    if updates.len() == 0 {
    } else {
        lemma_coalesce_last_wins(acc, updates.drop_last(), name);
        let c0 = coalesce(acc, updates.drop_last());
        let u = updates.last();
        lemma_coalesce_one_find(c0, u);
        lemma_last_update_index(updates, name);
        if u.cell_name() == name {
            assert(li == updates.len() - 1);
            assert(c[update_index(c, name)] == u);
        } else {
            assert(last_update_index(updates.drop_last(), name) == li);
            assert forall|i: int| 0 <= i < updates.drop_last().len() implies updates.drop_last()[i]
                == updates[i] by {}
        }
    }
}

/// The coalesced-map property of a batch's response: the mutation list has
/// at most one entry per cell name; every cell some invocation touched has
/// an entry; and each entry is the last state effect any invocation of the
/// batch produced for that cell.
pub proof fn lemma_coalesced_mutations<F: InvokableFunction>(
    f: F,
    target: AddressView,
    working: Seq<StateCellView>,
    invocations: Seq<InvocationView>,
)
    ensures
        ({
            let fin = run_batch(f, target, initial_batch_state(working), invocations);
            let all = concat_updates(
                batch_effects(f, target, initial_batch_state(working), invocations),
            );
            &&& forall|i: int, j: int|
                0 <= i < j < fin.coalesced.len() ==> fin.coalesced[i].cell_name()
                    != fin.coalesced[j].cell_name()
            &&& forall|k: int|
                0 <= k < all.len() ==> update_index(fin.coalesced, #[trigger] all[k].cell_name())
                    != -1
            &&& forall|i: int|
                0 <= i < fin.coalesced.len() ==> {
                    let li = last_update_index(all, #[trigger] fin.coalesced[i].cell_name());
                    li != -1 && fin.coalesced[i] == all[li]
                }
        }),
{
    let st = initial_batch_state(working);
    let fin = run_batch(f, target, st, invocations);
    let all = concat_updates(batch_effects(f, target, st, invocations));
    lemma_run_batch_updates(f, target, st, invocations);
    assert(fin.coalesced == coalesce(Seq::empty(), all));
    lemma_coalesce_unique(Seq::empty(), all);
    assert forall|k: int| 0 <= k < all.len() implies update_index(
        fin.coalesced,
        #[trigger] all[k].cell_name(),
    ) != -1 by {
        let name = all[k].cell_name();
        lemma_last_update_index(all, name);
        if last_update_index(all, name) == -1 {
            assert(all[k].cell_name() != name);
        }
        lemma_coalesce_last_wins(Seq::empty(), all, name);
    }
    assert forall|i: int| 0 <= i < fin.coalesced.len() implies {
        let li = last_update_index(all, #[trigger] fin.coalesced[i].cell_name());
        li != -1 && fin.coalesced[i] == all[li]
    } by {
        let name = fin.coalesced[i].cell_name();
        lemma_coalesce_last_wins(Seq::empty(), all, name);
        crate::invocation_bridge::lemma_update_index(fin.coalesced, name);
        let idx = update_index(fin.coalesced, name);
        if idx == -1 {
            assert(fin.coalesced[i].cell_name() != name);
        }
        if idx != i {
            assert(fin.coalesced[idx].cell_name() == fin.coalesced[i].cell_name());
        }
        if last_update_index(all, name) == -1 {
            lemma_last_update_index(all, name);
        }
    }
}

/// Two predicates that agree everywhere filter a sequence to the same
/// subsequence.
proof fn lemma_filter_congruence<A>(s: Seq<A>, p: spec_fn(A) -> bool, q: spec_fn(A) -> bool)
    requires
        forall|x: A| #[trigger] p(x) == q(x),
    ensures
        s.filter(p) == s.filter(q),
    decreases s.len(),
{
    reveal(Seq::filter);
    if s.len() > 0 {
        lemma_filter_congruence(s.drop_last(), p, q);
    }
}

} // verus!
