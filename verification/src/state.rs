//! State nodes: a name and an ordered list of attribute values, each of which
//! refers to an attribute type of the registry.

use crate::registry::{StateId, StateTypeView, StateTypes};
use vstd::prelude::*;

verus! {

/// The value of one attribute.
#[derive(Clone, Copy, Debug, PartialEq, Eq, Structural)]
pub enum StateTypeValue {
    Bool(bool),
}

/// One attribute of a state: the attribute type it refers to and its value.
#[derive(Clone, Copy, Debug, PartialEq, Eq, Structural)]
pub struct StateValue {
    pub state: StateId,
    pub value: StateTypeValue,
}

/// A state of the machine: its name and its attributes in insertion order.
#[derive(Clone, Debug, PartialEq, Eq)]
pub struct State {
    pub name: String,
    pub state: Vec<StateValue>,
}

/// A state with its name as a sequence of characters.
pub struct StateView {
    pub name: Seq<char>,
    pub state: Seq<StateValue>,
}

impl View for State {
    type V = StateView;

    open spec fn view(&self) -> StateView {
        StateView { name: self.name@, state: self.state@ }
    }
}

/// Every attribute of the state refers to an attribute type that the registry holds.
pub open spec fn is_bound(state: StateView, types: Map<u128, StateTypeView>) -> bool {
    forall|i: int|
        0 <= i < state.state.len() ==> types.contains_key(#[trigger] state.state[i].state@)
}

/// The attributes that do not refer to the attribute type `id`, in their order.
pub open spec fn without_type(attributes: Seq<StateValue>, id: u128) -> Seq<StateValue> {
    attributes.filter(|attribute: StateValue| attribute.state@ != id)
}

impl State {
    /// A state with the given name and attributes.
    pub fn new(name: &str, state: Vec<StateValue>) -> (node: State)
        ensures
            node@.name == name@,
            node@.state == state@,
    {
        State { name: name.to_owned(), state }
    }

    /// Whether every attribute refers to an attribute type that the registry holds.
    pub fn is_bound(&self, types: &StateTypes) -> (bound: bool)
        ensures
            bound == is_bound(self@, types@),
    {
        let mut i: usize = 0;
        while i < self.state.len()
            invariant
                i <= self.state.len(),
                forall|k: int| 0 <= k < i ==> types@.contains_key(#[trigger] self.state@[k].state@),
            decreases self.state.len() - i,
        {
            if !types.contains(self.state[i].state) {
                assert(!types@.contains_key(self@.state[i as int].state@));
                return false;
            }
            i += 1;
        }
        true
    }

    /// Drops every attribute that refers to the attribute type `id`, as a
    /// state does when that type leaves the registry. The other attributes
    /// keep their order, and the name stays.
    pub fn forget_type(&mut self, id: StateId)
        ensures
            final(self)@.name == old(self)@.name,
            final(self)@.state == without_type(old(self)@.state, id@),
    {
        let mut kept: Vec<StateValue> = Vec::new();
        let mut i: usize = 0;
        while i < self.state.len()
            invariant
                i <= self.state.len(),
                kept@ == without_type(self.state@.take(i as int), id@),
            decreases self.state.len() - i,
        {
            let attribute = self.state[i];
            proof {
                let next = self.state@.take(i as int + 1);
                lemma_without_type_step(next, id@);
                assert(next.drop_last() == self.state@.take(i as int));
                StateId::lemma_view_injective(attribute.state, id);
            }
            if attribute.state != id {
                kept.push(attribute);
            }
            i += 1;
        }
        assert(self.state@.take(i as int) == self.state@);
        self.state = kept;
    }
}

/// Filtering a non-empty list filters all but its last attribute and then
/// decides on the last.
proof fn lemma_without_type_step(attributes: Seq<StateValue>, id: u128)
    requires
        attributes.len() > 0,
    ensures
        without_type(attributes, id) == if attributes.last().state@ != id {
            without_type(attributes.drop_last(), id).push(attributes.last())
        } else {
            without_type(attributes.drop_last(), id)
        },
{
    reveal(Seq::filter);
}

} // verus!
