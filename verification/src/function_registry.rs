//! The function registry keeps a mapping from `FunctionType` to stateful
//! functions.

use vstd::prelude::*;

use crate::context::{Context, ContextView, find_cell};
use crate::effects::{Effects, EffectsView};
use crate::error::{InvocationError, InvocationErrorView};
use crate::function_type::{FunctionType, FunctionTypeView};
use crate::message::Message;
use crate::missing_states::MissingStates;
use crate::typed_value::TypedValueView;
use crate::value_spec::{ValueSpecBase, ValueSpecBaseView};
use crate::views::seq_view;
use crate::context::StateCellView;

verus! {

/// A stateful function that can be invoked by the registry.
///
/// A handler is a pure function of the invocation's context and message. The
/// specification function `effects_spec` is the handler's mathematical model;
/// `invoke` must return exactly the effects the model describes, so that
/// everything the batch engine promises about a response is pinned down by
/// the models of the registered handlers.
pub trait InvokableFunction {
    /// The effects this function produces for the given invocation.
    spec fn effects_spec(&self, context: ContextView, message: TypedValueView) -> EffectsView;

    /// Runs the function on one invocation, producing its effects.
    fn invoke(&self, context: Context<'_>, message: Message) -> (r: Effects)
        ensures
            r@ == self.effects_spec(context@, message@),
    ;
}

/// The mathematical value of one registration: the function type it is filed
/// under, the state cells it declares, and the handler itself.
pub struct RegistryEntryView<F> {
    /// The function type the handler is registered under.
    pub function_type: FunctionTypeView,
    /// The state cells the handler declares, in declaration order.
    pub value_specs: Seq<ValueSpecBaseView>,
    /// The handler.
    pub function: F,
}

/// One registration: a function type, the state cells the handler declares,
/// and the handler.
pub struct RegistryEntry<F> {
    /// The function type the handler is registered under.
    pub function_type: FunctionType,
    /// The state cells the handler declares, in declaration order.
    pub value_specs: Vec<ValueSpecBase>,
    /// The handler.
    pub function: F,
}

impl<F> View for RegistryEntry<F> {
    type V = RegistryEntryView<F>;

    open spec fn view(&self) -> RegistryEntryView<F> {
        RegistryEntryView {
            function_type: self.function_type@,
            value_specs: seq_view(self.value_specs@),
            function: self.function,
        }
    }
}

/// The first registration filed under `ft`, if any.
pub open spec fn spec_lookup<F>(
    entries: Seq<RegistryEntryView<F>>,
    ft: FunctionTypeView,
) -> Option<RegistryEntryView<F>>
    decreases entries.len(),
{
    if entries.len() == 0 {
        None
    } else if entries[0].function_type == ft {
        Some(entries[0])
    } else {
        spec_lookup(entries.drop_first(), ft)
    }
}

/// The declared cells whose names are absent from the given state, in
/// declaration order.
pub open spec fn missing_from(
    specs: Seq<ValueSpecBaseView>,
    state: Seq<StateCellView>,
) -> Seq<ValueSpecBaseView>
    decreases specs.len(),
{
    if specs.len() == 0 {
        Seq::empty()
    } else {
        let rest = missing_from(specs.drop_last(), state);
        if find_cell(state, specs.last().name) is None {
            rest.push(specs.last())
        } else {
            rest
        }
    }
}

/// What `FunctionRegistry::invoke` returns: the modelled effects of the
/// registered handler, an error naming an unregistered function type, or the
/// declared-but-absent state cells.
pub open spec fn spec_invoke<F: InvokableFunction>(
    entries: Seq<RegistryEntryView<F>>,
    target_function: FunctionTypeView,
    context: ContextView,
    message: TypedValueView,
) -> Result<EffectsView, InvocationErrorView> {
    match spec_lookup(entries, target_function) {
        None => Err(InvocationErrorView::FunctionNotFound(target_function)),
        Some(entry) => {
            let missing = missing_from(entry.value_specs, context.state);
            if missing.len() > 0 {
                Err(InvocationErrorView::MissingStates(missing))
            } else {
                Ok(entry.function.effects_spec(context, message))
            }
        },
    }
}

/// Keeps a mapping from `FunctionType` to stateful functions. Use this
/// together with a transport to serve stateful functions.
///
/// Use `register_fn()` to register functions before handing the registry over
/// to a transport for serving. The registry is read-only afterwards.
pub struct FunctionRegistry<F: InvokableFunction> {
    functions: Vec<RegistryEntry<F>>,
}

impl<F: InvokableFunction> View for FunctionRegistry<F> {
    type V = Seq<RegistryEntryView<F>>;

    closed spec fn view(&self) -> Seq<RegistryEntryView<F>> {
        seq_view(self.functions@)
    }
}

impl<F: InvokableFunction> FunctionRegistry<F> {
    /// Creates a new empty `FunctionRegistry`.
    pub fn new() -> (r: FunctionRegistry<F>)
        ensures
            r@ == Seq::<RegistryEntryView<F>>::empty(),
    {
        let r = FunctionRegistry { functions: Vec::new() };
        proof {
            assert(r@ =~= Seq::<RegistryEntryView<F>>::empty());
        }
        r
    }

    /// Registers the given function under the `function_type`, declaring the
    /// given state cells. Registering the same function type twice is a
    /// programming error.
    pub fn register_fn(
        &mut self,
        function_type: FunctionType,
        value_specs: Vec<ValueSpecBase>,
        function: F,
    )
        requires
            spec_lookup(old(self)@, function_type@) is None,
        ensures
            final(self)@ == old(self)@.push(
                RegistryEntryView {
                    function_type: function_type@,
                    value_specs: seq_view(value_specs@),
                    function,
                },
            ),
    {
        let entry = RegistryEntry { function_type, value_specs, function };
        let ghost entry_view = entry@;
        self.functions.push(entry);
        proof {
            assert(self@ =~= old(self)@.push(entry_view));
        }
    }

    /// The registration filed under the given function type, if any.
    pub(crate) fn find_entry(&self, target: &FunctionType) -> (r: Option<&RegistryEntry<F>>)
        ensures
            match r {
                Option::None => spec_lookup(self@, target@) is None,
                Option::Some(entry) => spec_lookup(self@, target@) == Some(entry@),
            },
    {
        let n = self.functions.len();
        let mut i: usize = 0;
        while i < n
            invariant
                n == self.functions.len(),
                i <= n,
                forall|j: int| 0 <= j < i ==> self@[j].function_type != target@,
            decreases n - i,
        {
            if self.functions[i].function_type == *target {
                proof {
                    lemma_spec_lookup_first_match(self@, target@, i as int);
                }
                return Some(&self.functions[i]);
            }
            i = i + 1;
        }
        proof {
            lemma_spec_lookup_no_match(self@, target@);
        }
        None
    }

    /// Invokes the function that is registered for the given `FunctionType`.
    ///
    /// This returns `Err` if no function is registered under the given type,
    /// or if cells the function declares are missing from the context's state
    /// map; in the latter case the error lists the missing declarations, for
    /// the coordinator to allocate.
    pub fn invoke(&self, target_function: FunctionType, context: Context<'_>, message: Message)
        -> (r: Result<Effects, InvocationError>)
        ensures
            ({
                let s = spec_invoke(self@, target_function@, context@, message@);
                &&& r is Ok <==> s is Ok
                &&& r is Ok ==> r->Ok_0@ == s->Ok_0
                &&& r is Err ==> r->Err_0@ == s->Err_0
            }),
    {
        let entry = match self.find_entry(&target_function) {
            Option::None => {
                return Err(InvocationError::FunctionNotFound(target_function));
            },
            Option::Some(entry) => entry,
        };

        let missing = missing_states_of(&entry.value_specs, context.state);
        if missing.len() > 0 {
            return Err(InvocationError::MissingStates(MissingStates::new(missing)));
        }

        Ok(entry.function.invoke(context, message))
    }
}

/// When no entry among the first `i` matches and entry `i` does, the lookup
/// returns entry `i`.
proof fn lemma_spec_lookup_first_match<F>(
    entries: Seq<RegistryEntryView<F>>,
    ft: FunctionTypeView,
    i: int,
)
    requires
        0 <= i < entries.len(),
        forall|j: int| 0 <= j < i ==> entries[j].function_type != ft,
        entries[i].function_type == ft,
    ensures
        spec_lookup(entries, ft) == Some(entries[i]),
    decreases i,
{
    if i > 0 {
        lemma_spec_lookup_first_match(entries.drop_first(), ft, i - 1);
    }
}

/// When no entry matches, the lookup returns nothing.
proof fn lemma_spec_lookup_no_match<F>(entries: Seq<RegistryEntryView<F>>, ft: FunctionTypeView)
    requires
        forall|j: int| 0 <= j < entries.len() ==> entries[j].function_type != ft,
    ensures
        spec_lookup(entries, ft) is None,
    decreases entries.len(),
{
    if entries.len() > 0 {
        assert forall|j: int| 0 <= j < entries.drop_first().len() implies entries.drop_first()[j]
            .function_type != ft by {
            assert(entries.drop_first()[j] == entries[j + 1]);
        }
        lemma_spec_lookup_no_match(entries.drop_first(), ft);
    }
}

/// Gathers the declared cells whose names are absent from the working state,
/// in declaration order.
pub(crate) fn missing_states_of(specs: &Vec<ValueSpecBase>, state: &Vec<crate::context::StateCell>) -> (r:
    Vec<ValueSpecBase>)
    ensures
        seq_view(r@) == missing_from(seq_view(specs@), seq_view(state@)),
{
    let mut missing: Vec<ValueSpecBase> = Vec::new();
    let n = specs.len();
    let mut i: usize = 0;
    proof {
        assert(seq_view(specs@).take(0) =~= Seq::<ValueSpecBaseView>::empty());
        assert(seq_view(missing@) =~= missing_from(seq_view(specs@).take(0), seq_view(state@)));
    }
    while i < n
        invariant
            n == specs.len(),
            i <= n,
            seq_view(missing@) == missing_from(seq_view(specs@).take(i as int), seq_view(state@)),
        decreases n - i,
    {
        let ghost prefix = seq_view(specs@).take(i as int);
        let ghost prefix1 = seq_view(specs@).take(i as int + 1);
        proof {
            assert(prefix1.drop_last() =~= prefix);
            assert(prefix1.last() == seq_view(specs@)[i as int]);
        }
        if !state_has_name(state, &specs[i].name) {
            let ghost missing_before = missing@;
            missing.push(specs[i].clone());
            proof {
                assert(seq_view(missing@) =~= seq_view(missing_before).push(specs@[i as int]@));
            }
        }
        i = i + 1;
    }
    proof {
        assert(seq_view(specs@).take(n as int) =~= seq_view(specs@));
    }
    missing
}

/// Whether some cell of the working state carries the given name.
fn state_has_name(state: &Vec<crate::context::StateCell>, name: &String) -> (r: bool)
    ensures
        r == (find_cell(seq_view(state@), name@) is Some),
{
    let n = state.len();
    let mut i: usize = 0;
    while i < n
        invariant
            n == state.len(),
            i <= n,
            forall|j: int| 0 <= j < i ==> seq_view(state@)[j].name != name@,
        decreases n - i,
    {
        if state[i].name == *name {
            proof {
                crate::context::lemma_cell_index(seq_view(state@), name@);
                if cell_index_of(state, name) == -1 {
                    assert(seq_view(state@)[i as int].name != name@);
                    assert(false);
                }
            }
            return true;
        }
        i = i + 1;
    }
    proof {
        crate::context::lemma_cell_index(seq_view(state@), name@);
        if crate::context::cell_index(seq_view(state@), name@) != -1 {
            let ghost idx = crate::context::cell_index(seq_view(state@), name@);
            assert(seq_view(state@)[idx].name != name@);
            assert(false);
        }
    }
    false
}

/// Shorthand for the spec-level cell index over a state vector.
spec fn cell_index_of(state: &Vec<crate::context::StateCell>, name: &String) -> int {
    crate::context::cell_index(seq_view(state@), name@)
}

} // verus!
