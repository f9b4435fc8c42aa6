//! The read-only view of a single invocation: the working state and the two
//! addresses involved.

use vstd::prelude::*;

use crate::address::{Address, AddressView};
use crate::traits::Serializable;
use crate::value_spec::ValueSpec;
use crate::views::seq_view;

verus! {

/// The mathematical value of a [`StateCell`].
pub struct StateCellView {
    /// Name of the cell.
    pub name: Seq<char>,
    /// Type name last reported for the cell; blank until the first write.
    pub typename: Seq<char>,
    /// The stored bytes; empty means "allocated but empty".
    pub bytes: Seq<u8>,
}

/// One named cell of the working state map of a batch.
///
/// The coordinator may omit the type name on a cell that was allocated but
/// never written, so the type name is retained for reporting only and plays
/// no part in lookups: cells are keyed by name alone.
#[derive(Debug)]
pub struct StateCell {
    /// Name of the cell.
    pub name: String,
    /// Type name last reported for the cell; blank until the first write.
    pub typename: String,
    /// The stored bytes; empty means "allocated but empty".
    pub bytes: Vec<u8>,
}

impl View for StateCell {
    type V = StateCellView;

    open spec fn view(&self) -> StateCellView {
        StateCellView { name: self.name@, typename: self.typename@, bytes: self.bytes@ }
    }
}

/// The index of the first cell named `name`, or `-1` when no cell has that
/// name. Lookups key on the name only.
pub open spec fn cell_index(state: Seq<StateCellView>, name: Seq<char>) -> int
    decreases state.len(),
{
    if state.len() == 0 {
        -1
    } else if state[0].name == name {
        0
    } else {
        let rest = cell_index(state.drop_first(), name);
        if rest == -1 {
            -1
        } else {
            rest + 1
        }
    }
}

/// The first cell named `name`, if any.
pub open spec fn find_cell(state: Seq<StateCellView>, name: Seq<char>) -> Option<StateCellView> {
    if cell_index(state, name) == -1 {
        None
    } else {
        Some(state[cell_index(state, name)])
    }
}

/// The index returned by [`cell_index`] is in range and is the first index
/// whose cell carries the name.
pub proof fn lemma_cell_index(state: Seq<StateCellView>, name: Seq<char>)
    ensures
        cell_index(state, name) == -1 ==> forall|i: int|
            0 <= i < state.len() ==> state[i].name != name,
        cell_index(state, name) != -1 ==> {
            &&& 0 <= cell_index(state, name) < state.len()
            &&& state[cell_index(state, name)].name == name
            &&& forall|i: int| 0 <= i < cell_index(state, name) ==> state[i].name != name
        },
    decreases state.len(),
{
    if state.len() != 0 && state[0].name != name {
        lemma_cell_index(state.drop_first(), name);
        assert forall|i: int| 0 <= i < state.len() implies (state[i].name == name
            ==> cell_index(state, name) != -1 && i >= cell_index(state, name)) by {
            if 0 < i < state.len() {
                assert(state.drop_first()[i - 1] == state[i]);
            }
        }
    }
}

/// When no cell among the first `i` carries the name and cell `i` does, the
/// first index carrying the name is `i`.
pub proof fn lemma_cell_index_at(state: Seq<StateCellView>, name: Seq<char>, i: int)
    requires
        0 <= i < state.len(),
        state[i].name == name,
        forall|j: int| 0 <= j < i ==> state[j].name != name,
    ensures
        cell_index(state, name) == i,
{
    lemma_cell_index(state, name);
    let idx = cell_index(state, name);
    if idx == -1 {
        assert(state[i].name != name);
    } else if idx < i {
        assert(state[idx].name != name);
    } else if idx > i {
        assert(state[i].name != name);
    }
}

/// When no cell carries the name, no index does.
pub proof fn lemma_cell_index_absent(state: Seq<StateCellView>, name: Seq<char>)
    requires
        forall|j: int| 0 <= j < state.len() ==> state[j].name != name,
    ensures
        cell_index(state, name) == -1,
{
    lemma_cell_index(state, name);
    if cell_index(state, name) != -1 {
        assert(state[cell_index(state, name)].name != name);
    }
}

/// The mathematical value of a [`Context`].
pub struct ContextView {
    /// The working state map at the time of the invocation.
    pub state: Seq<StateCellView>,
    /// Address of the function being invoked.
    pub self_address: AddressView,
    /// Address of the caller; all-empty when the message came from an
    /// ingress.
    pub caller_address: AddressView,
}

/// Context for a single invocation of a stateful function.
///
/// The context may be used to obtain the address of the function of the
/// current invocation or of the calling function (if the function was invoked
/// by another function), or to read state.
#[derive(Debug)]
pub struct Context<'a> {
    /// The working state map of the batch.
    pub state: &'a Vec<StateCell>,
    /// Address of the function being invoked.
    pub self_address: &'a Address,
    /// Address of the caller.
    pub caller_address: &'a Address,
}

impl<'a> View for Context<'a> {
    type V = ContextView;

    open spec fn view(&self) -> ContextView {
        ContextView {
            state: seq_view(self.state@),
            self_address: self.self_address@,
            caller_address: self.caller_address@,
        }
    }
}

impl<'a> Context<'a> {
    /// Creates the context of one invocation over the given working state.
    pub fn new(
        state: &'a Vec<StateCell>,
        self_address: &'a Address,
        caller_address: &'a Address,
    ) -> (r: Context<'a>)
        ensures
            r@ == (ContextView {
                state: seq_view(state@),
                self_address: self_address@,
                caller_address: caller_address@,
            }),
    {
        Context { state, self_address, caller_address }
    }

    /// Returns the address of the stateful function that is being called.
    pub fn self_address(&self) -> (r: Address)
        ensures
            r@ == self@.self_address,
    {
        self.self_address.clone()
    }

    /// Returns the address of the stateful function that caused this
    /// invocation, that is, the caller.
    pub fn caller_address(&self) -> (r: Address)
        ensures
            r@ == self@.caller_address,
    {
        self.caller_address.clone()
    }

    /// Returns the state (or persisted) value that previous invocations of
    /// this stateful function might have persisted under the given cell.
    ///
    /// Returns `None` when the cell is absent or allocated-but-empty; returns
    /// `Some(Ok(value))` on a successful decode and `Some(Err(msg))` when the
    /// stored bytes do not decode. The lookup is keyed on the cell name only:
    /// the coordinator may omit the type name on a cell that was allocated
    /// but never written.
    pub fn get_state<T: Serializable<T>>(&self, value_spec: ValueSpec<T>) -> (r: Option<
        Result<T, String>,
    >)
        ensures
            ({
                let found = find_cell(self@.state, value_spec@.name);
                match found {
                    Option::None => r is None,
                    Option::Some(cell) => {
                        if cell.bytes.len() == 0 {
                            r is None
                        } else {
                            let d = T::deser_spec(value_spec@.typename, cell.bytes);
                            &&& r is Some
                            &&& r->0 is Ok <==> d is Ok
                            &&& r->0 is Ok ==> r->0->Ok_0@ == d->Ok_0
                            &&& r->0 is Err ==> r->0->Err_0@ == d->Err_0
                        }
                    },
                }
            }),
    {
        let n = self.state.len();
        let mut i: usize = 0;
        while i < n
            invariant
                n == self.state.len(),
                i <= n,
                forall|j: int| 0 <= j < i ==> seq_view(self.state@)[j].name != value_spec@.name,
            decreases n - i,
        {
            if self.state[i].name == value_spec.base.name {
                let cell = &self.state[i];
                proof {
                    lemma_cell_index(self@.state, value_spec@.name);
                    let ghost idx = cell_index(self@.state, value_spec@.name);
                    assert(self@.state[i as int].name == value_spec@.name);
                    if idx == -1 {
                        assert(self@.state[i as int].name != value_spec@.name);
                        assert(false);
                    }
                    if idx < i as int {
                        assert(self@.state[idx].name != value_spec@.name);
                        assert(false);
                    }
                    if idx > i as int {
                        assert(self@.state[i as int].name != value_spec@.name);
                        assert(false);
                    }
                    assert(find_cell(self@.state, value_spec@.name) == Some(
                        self@.state[i as int],
                    ));
                    assert(self@.state[i as int] == cell@);
                }
                if cell.bytes.len() == 0 {
                    return None;
                }
                let typename = value_spec.base.typename.clone();
                return Some(T::deserialize(typename, &cell.bytes));
            }
            i = i + 1;
        }
        proof {
            lemma_cell_index(self@.state, value_spec@.name);
            if cell_index(self@.state, value_spec@.name) != -1 {
                let ghost idx = cell_index(self@.state, value_spec@.name);
                assert(self@.state[idx].name != value_spec@.name);
                assert(false);
            }
        }
        None
    }
}

} // verus!
