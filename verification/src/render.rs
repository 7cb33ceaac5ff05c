//! What a state node looks like: its label, its `Enter` connector, and one
//! row for each attribute, sorted by the display name of the attribute type.

use crate::noodle::Connector;
use crate::registry::{renamed, StateTypeView, StateTypes};
use crate::state::{is_bound, State, StateTypeValue, StateValue, StateView};
use crate::text_order::{
    goes_before, is_stable_order, lemma_stable_order_ascends, lemma_stable_order_is_onto,
    lemma_stable_order_unique, lemma_text_lt_irreflexive, reordered, text_le,
};
use itertools::Itertools;
use vstd::prelude::*;

verus! {

/// The colours that a node's visuals use.
#[derive(Clone, Copy, Debug, PartialEq, Eq, Structural)]
pub enum Paint {
    White,
    Green,
    Red,
}

/// A connector anchor as drawn: its direction and the colour that fills it.
#[derive(Clone, Copy, Debug, PartialEq, Eq, Structural)]
pub struct ConnectorVisual {
    pub direction: Connector,
    pub fill: Paint,
}

/// One attribute row: the name of the attribute type, the colour of that
/// text, and the `Exit` connector that ends the row.
#[derive(Debug, PartialEq, Eq)]
pub struct RowVisual {
    pub text: String,
    pub color: Paint,
    pub exit: ConnectorVisual,
}

/// An attribute row with its text as a sequence of characters.
pub struct RowView {
    pub text: Seq<char>,
    pub color: Paint,
    pub exit: ConnectorVisual,
}

impl View for RowVisual {
    type V = RowView;

    open spec fn view(&self) -> RowView {
        RowView { text: self.text@, color: self.color, exit: self.exit }
    }
}

/// The children of a node, in the order in which they are built: the label,
/// the `Enter` connector, then the rows.
#[derive(Debug, PartialEq, Eq)]
pub struct NodeVisual {
    pub label: String,
    pub enter: ConnectorVisual,
    pub rows: Vec<RowVisual>,
}

/// The children of a node with every text as a sequence of characters.
pub struct NodeVisualView {
    pub label: Seq<char>,
    pub enter: ConnectorVisual,
    pub rows: Seq<RowView>,
}

impl View for NodeVisual {
    type V = NodeVisualView;

    open spec fn view(&self) -> NodeVisualView {
        NodeVisualView { label: self.label@, enter: self.enter, rows: row_views(self.rows@) }
    }
}

/// Each row seen through its view.
pub open spec fn row_views(rows: Seq<RowVisual>) -> Seq<RowView> {
    rows.map_values(|row: RowVisual| row@)
}

/// The text of each row.
pub open spec fn row_texts(rows: Seq<RowView>) -> Seq<Seq<char>> {
    rows.map_values(|row: RowView| row.text)
}

/// The colour that shows a value: green for true, red for false.
pub open spec fn paint_of(value: StateTypeValue) -> Paint {
    match value {
        StateTypeValue::Bool(held) => if held {
            Paint::Green
        } else {
            Paint::Red
        },
    }
}

/// The `Enter` connector at a node's left edge.
pub open spec fn enter_connector() -> ConnectorVisual {
    ConnectorVisual { direction: Connector::Enter, fill: Paint::White }
}

/// The row that shows one attribute: the current name of its type, coloured
/// by its value, and an `Exit` connector of the same colour.
pub open spec fn row_of(attribute: StateValue, types: Map<u128, StateTypeView>) -> RowView {
    RowView {
        text: types[attribute.state@].name,
        color: paint_of(attribute.value),
        exit: ConnectorVisual { direction: Connector::Exit, fill: paint_of(attribute.value) },
    }
}

/// The rows of a state's attributes in insertion order.
pub open spec fn rows_as_inserted(state: StateView, types: Map<u128, StateTypeView>) -> Seq<
    RowView,
> {
    state.state.map_values(|attribute: StateValue| row_of(attribute, types))
}

/// `sorted` holds the rows of `unsorted` in ascending order of their texts,
/// rows with equal texts in the order they had in `unsorted`.
pub open spec fn is_sorted_by_text(unsorted: Seq<RowView>, sorted: Seq<RowView>) -> bool {
    exists|order: Seq<int>| is_sorted_along(unsorted, sorted, order)
}

/// `order` is the stable order of the texts of `unsorted`, and `sorted` holds
/// the rows of `unsorted` in that order.
pub open spec fn is_sorted_along(
    unsorted: Seq<RowView>,
    sorted: Seq<RowView>,
    order: Seq<int>,
) -> bool {
    is_stable_order(row_texts(unsorted), order) && sorted == reordered(unsorted, order)
}

/// `visual` is what the state looks like under the registry `types`.
pub open spec fn shows(
    visual: NodeVisualView,
    state: StateView,
    types: Map<u128, StateTypeView>,
) -> bool {
    &&& visual.label == state.name
    &&& visual.enter == enter_connector()
    &&& is_sorted_by_text(rows_as_inserted(state, types), visual.rows)
}

/// The result of a stable sort of `rows` by text, stated on the rows themselves.
pub open spec fn is_stable_sort_by_text(rows: Seq<RowVisual>, sorted: Seq<RowVisual>) -> bool {
    exists|order: Seq<int>|
        is_stable_order(row_texts(row_views(rows)), order) && sorted == reordered(rows, order)
}

/// `Itertools::sorted_by_key` on the rows with each row's text as its key,
/// collected into a `Vec`. It sorts with `slice::sort_by_key`, which is
/// stable: the rows come back in ascending order of their texts as `String`
/// orders them, and rows with equal texts keep their relative order.
#[verifier::external_body]
fn sorted_by_text(rows: Vec<RowVisual>) -> (sorted: Vec<RowVisual>)
    ensures
        is_stable_sort_by_text(rows@, sorted@),
{
    rows.into_iter().sorted_by_key(|row| row.text.clone()).collect()
}

/// The colour that shows a value: green for true, red for false.
pub fn paint(value: StateTypeValue) -> (color: Paint)
    ensures
        color == paint_of(value),
{
    match value {
        StateTypeValue::Bool(held) => if held {
            Paint::Green
        } else {
            Paint::Red
        },
    }
}

/// Builds the children of a node from its state: the label with the state's
/// name, the `Enter` connector, and the attribute rows sorted by the display
/// name of their types. Every attribute must refer to a type of the registry.
pub fn update_node(state: &State, types: &StateTypes) -> (visual: NodeVisual)
    requires
        is_bound(state@, types@),
    ensures
        shows(visual@, state@, types@),
{
    let mut rows: Vec<RowVisual> = Vec::new();
    let mut i: usize = 0;
    while i < state.state.len()
        invariant
            i <= state.state.len(),
            is_bound(state@, types@),
            rows@.len() == i,
            forall|k: int| 0 <= k < i ==> (#[trigger] rows@[k])@ == row_of(state@.state[k], types@),
        decreases state.state.len() - i,
    {
        let attribute = state.state[i];
        let color = paint(attribute.value);
        let text = match types.get(attribute.state) {
            Some(data) => data.name.clone(),
            None => String::new(),
        };
        rows.push(
            RowVisual {
                text,
                color,
                exit: ConnectorVisual { direction: Connector::Exit, fill: color },
            },
        );
        i += 1;
    }
    let ghost unsorted = rows@;
    let sorted = sorted_by_text(rows);
    let visual = NodeVisual {
        label: state.name.clone(),
        enter: ConnectorVisual { direction: Connector::Enter, fill: Paint::White },
        rows: sorted,
    };
    proof {
        let order = choose|order: Seq<int>|
            is_stable_order(row_texts(row_views(unsorted)), order) && sorted@ == reordered(
                unsorted,
                order,
            );
        assert(visual@.rows =~= reordered(rows_as_inserted(state@, types@), order));
        assert(is_sorted_along(rows_as_inserted(state@, types@), visual@.rows, order));
    }
    visual
}

/// Builds the children of a node as [`update_node`] does, after making sure
/// that every attribute refers to a type of the registry. A state with an
/// attribute of an unknown type has no visual: `None` reports it.
pub fn try_update_node(state: &State, types: &StateTypes) -> (visual: Option<NodeVisual>)
    ensures
        visual is Some == is_bound(state@, types@),
        visual matches Some(shown) ==> shows(shown@, state@, types@),
{
    if state.is_bound(types) {
        Some(update_node(state, types))
    } else {
        None
    }
}

/// Builds the children of each node in turn.
pub fn update_nodes(nodes: &Vec<State>, types: &StateTypes) -> (visuals: Vec<NodeVisual>)
    requires
        forall|n: int| 0 <= n < nodes.len() ==> is_bound(#[trigger] nodes[n]@, types@),
    ensures
        visuals.len() == nodes.len(),
        forall|n: int| 0 <= n < nodes.len() ==> shows(#[trigger] visuals[n]@, nodes[n]@, types@),
{
    let mut visuals: Vec<NodeVisual> = Vec::new();
    let mut n: usize = 0;
    while n < nodes.len()
        invariant
            n <= nodes.len(),
            visuals.len() == n,
            forall|k: int| 0 <= k < nodes.len() ==> is_bound(#[trigger] nodes[k]@, types@),
            forall|k: int| 0 <= k < n ==> shows(#[trigger] visuals[k]@, nodes[k]@, types@),
        decreases nodes.len() - n,
    {
        let visual = update_node(&nodes[n], types);
        visuals.push(visual);
        n += 1;
    }
    visuals
}

/// Building a node twice from the same state and the same registry gives the
/// same children: a state under a registry has exactly one visual.
pub proof fn lemma_visual_is_unique(
    state: StateView,
    types: Map<u128, StateTypeView>,
    first: NodeVisualView,
    second: NodeVisualView,
)
    requires
        shows(first, state, types),
        shows(second, state, types),
    ensures
        first == second,
{
    let rows = rows_as_inserted(state, types);
    let order_a = choose|order: Seq<int>| is_sorted_along(rows, first.rows, order);
    let order_b = choose|order: Seq<int>| is_sorted_along(rows, second.rows, order);
    lemma_stable_order_unique(row_texts(rows), order_a, order_b);
}

/// The rows of a node ascend by the current display name of their attribute
/// types, whatever the order in which the attributes were inserted.
pub proof fn lemma_rows_ascend_by_name(
    state: StateView,
    types: Map<u128, StateTypeView>,
    visual: NodeVisualView,
    i: int,
    j: int,
)
    requires
        shows(visual, state, types),
        0 <= i <= j < visual.rows.len(),
    ensures
        text_le(visual.rows[i].text, visual.rows[j].text),
{
    let rows = rows_as_inserted(state, types);
    let order = choose|order: Seq<int>| is_sorted_along(rows, visual.rows, order);
    lemma_stable_order_ascends(row_texts(rows), order, i, j);
}

/// A node has one row for each attribute: the row of every attribute occurs
/// among the rows, and there are as many rows as attributes.
pub proof fn lemma_every_attribute_has_a_row(
    state: StateView,
    types: Map<u128, StateTypeView>,
    visual: NodeVisualView,
    attribute: int,
)
    requires
        shows(visual, state, types),
        0 <= attribute < state.state.len(),
    ensures
        visual.rows.len() == state.state.len(),
        exists|i: int|
            0 <= i < visual.rows.len() && visual.rows[i] == row_of(state.state[attribute], types),
{
    let rows = rows_as_inserted(state, types);
    let order = choose|order: Seq<int>| is_sorted_along(rows, visual.rows, order);
    lemma_stable_order_is_onto(row_texts(rows), order, attribute);
    let i = choose|i: int| 0 <= i < order.len() && order[i] == attribute;
    assert(visual.rows[i] == row_of(state.state[attribute], types));
}

/// `shuffle` lists every position below `len` exactly once.
pub open spec fn is_shuffle(shuffle: Seq<int>, len: nat) -> bool {
    &&& shuffle.len() == len
    &&& forall|i: int| 0 <= i < len ==> 0 <= #[trigger] shuffle[i] < len
    &&& forall|i: int, j: int| 0 <= i < j < len ==> #[trigger] shuffle[i] != #[trigger] shuffle[j]
}

/// No two attributes of the state show the same display name.
pub open spec fn has_distinct_names(state: StateView, types: Map<u128, StateTypeView>) -> bool {
    forall|i: int, j: int|
        0 <= i < j < state.state.len() ==> types[(#[trigger] state.state[i]).state@].name
            != types[(#[trigger] state.state[j]).state@].name
}

/// The order in which attributes were inserted does not show: two states
/// with the same name and the same attributes in different orders look the
/// same, provided that no two attributes show the same display name.
pub proof fn lemma_insertion_order_does_not_show(
    first: StateView,
    second: StateView,
    shuffle: Seq<int>,
    types: Map<u128, StateTypeView>,
    first_visual: NodeVisualView,
    second_visual: NodeVisualView,
)
    requires
        first.name == second.name,
        is_shuffle(shuffle, first.state.len()),
        second.state == reordered(first.state, shuffle),
        has_distinct_names(first, types),
        shows(first_visual, first, types),
        shows(second_visual, second, types),
    ensures
        first_visual == second_visual,
{
    let rows = rows_as_inserted(first, types);
    let shuffled = rows_as_inserted(second, types);
    let texts = row_texts(rows);
    let first_order = choose|order: Seq<int>| is_sorted_along(rows, first_visual.rows, order);
    let second_order = choose|order: Seq<int>| is_sorted_along(shuffled, second_visual.rows, order);
    let through = Seq::new(rows.len(), |i: int| shuffle[second_order[i]]);
    assert forall|i: int, j: int| 0 <= i < j < through.len() implies goes_before(
        texts,
        #[trigger] through[i],
        #[trigger] through[j],
    ) by {
        let a = second_order[i];
        let b = second_order[j];
        if texts[shuffle[a]] == texts[shuffle[b]] {
            lemma_text_lt_irreflexive(texts[shuffle[a]]);
        }
    }
    lemma_stable_order_unique(texts, first_order, through);
    assert(second_visual.rows =~= first_visual.rows);
}

/// A new name reaches every row that shows the renamed attribute type: once
/// the registry holds `name` for the type `id`, a node built from a state
/// with an attribute of that type has a row for it that reads `name`.
pub proof fn lemma_new_name_reaches_rows(
    state: StateView,
    types: Map<u128, StateTypeView>,
    id: u128,
    name: Seq<char>,
    visual: NodeVisualView,
    attribute: int,
)
    requires
        types.contains_key(id),
        0 <= attribute < state.state.len(),
        state.state[attribute].state@ == id,
        shows(visual, state, types.insert(id, renamed(types[id], name))),
    ensures
        exists|i: int|
            0 <= i < visual.rows.len() && visual.rows[i].text == name && visual.rows[i].color
                == paint_of(state.state[attribute].value),
{
    lemma_every_attribute_has_a_row(
        state,
        types.insert(id, renamed(types[id], name)),
        visual,
        attribute,
    );
}

} // verus!
