//! The editor's starting contents: two attribute types and four states.

use crate::panel::{add_state_to_side_panel, PanelRowView, SidePanel};
use crate::registry::{StateId, StateType, StateTypeData, StateTypeView, StateTypes};
use crate::state::{State, StateTypeValue, StateValue, StateView};
use vstd::prelude::*;

verus! {

/// A state to start with and where its node stands, in pixels from the left
/// and from the top of the canvas.
#[derive(Debug, PartialEq, Eq)]
pub struct SeedNode {
    pub state: State,
    pub left: u16,
    pub top: u16,
}

/// A starting state with its name as a sequence of characters.
pub struct SeedNodeView {
    pub state: StateView,
    pub left: u16,
    pub top: u16,
}

impl View for SeedNode {
    type V = SeedNodeView;

    open spec fn view(&self) -> SeedNodeView {
        SeedNodeView { state: self.state@, left: self.left, top: self.top }
    }
}

/// The starting state `name` at the given place, with a value for each of
/// the two attribute types.
pub open spec fn seed_node(
    name: Seq<char>,
    left: u16,
    top: u16,
    move_input: StateId,
    move_held: bool,
    jump_input: StateId,
    jump_held: bool,
) -> SeedNodeView {
    SeedNodeView {
        state: StateView {
            name,
            state: seq![
                StateValue { state: move_input, value: StateTypeValue::Bool(move_held) },
                StateValue { state: jump_input, value: StateTypeValue::Bool(jump_held) },
            ],
        },
        left,
        top,
    }
}

/// The four starting states.
pub open spec fn seed_nodes(move_input: StateId, jump_input: StateId) -> Seq<SeedNodeView> {
    seq![
        seed_node("Idle"@, 50, 50, move_input, false, jump_input, false),
        seed_node("Hovering"@, 50, 250, move_input, true, jump_input, true),
        seed_node("Walking"@, 500, 100, move_input, true, jump_input, false),
        seed_node("Jumping"@, 500, 300, move_input, false, jump_input, true),
    ]
}

/// The registry once the two starting attribute types are stored.
pub open spec fn seed_types(
    types: Map<u128, StateTypeView>,
    move_input: StateId,
    jump_input: StateId,
) -> Map<u128, StateTypeView> {
    types.insert(
        move_input@,
        StateTypeView { id: move_input@, name: "Move Input Held"@, state_type: StateType::Bool },
    ).insert(
        jump_input@,
        StateTypeView { id: jump_input@, name: "Jump Input Held"@, state_type: StateType::Bool },
    )
}

/// The panel once it has a row for each of the two starting attribute types,
/// each showing the name that the registry holds for its type.
pub open spec fn seed_rows(
    rows: Seq<PanelRowView>,
    types: Map<u128, StateTypeView>,
    move_input: StateId,
    jump_input: StateId,
) -> Seq<PanelRowView> {
    rows.push(
        PanelRowView {
            state_type: move_input@,
            text: seed_types(types, move_input, jump_input)[move_input@].name,
        },
    ).push(PanelRowView { state_type: jump_input@, text: "Jump Input Held"@ })
}

/// Each view of the list.
pub open spec fn node_views(nodes: Seq<SeedNode>) -> Seq<SeedNodeView> {
    nodes.map_values(|node: SeedNode| node@)
}

fn seed_state(
    name: &str,
    left: u16,
    top: u16,
    move_input: StateId,
    move_held: bool,
    jump_input: StateId,
    jump_held: bool,
) -> (node: SeedNode)
    ensures
        node@ == seed_node(name@, left, top, move_input, move_held, jump_input, jump_held),
{
    let mut state: Vec<StateValue> = Vec::new();
    state.push(StateValue { state: move_input, value: StateTypeValue::Bool(move_held) });
    state.push(StateValue { state: jump_input, value: StateTypeValue::Bool(jump_held) });
    let node = SeedNode { state: State::new(name, state), left, top };
    assert(node@.state.state =~= seed_node(
        name@,
        left,
        top,
        move_input,
        move_held,
        jump_input,
        jump_held,
    ).state.state);
    node
}

/// Fills the editor with its starting contents under the given identifiers:
/// stores the attribute types "Move Input Held" and "Jump Input Held", gives
/// the panel a row for each, and returns the four starting states.
pub fn setup_with(
    move_input: StateId,
    jump_input: StateId,
    types: &mut StateTypes,
    panel: &mut SidePanel,
) -> (nodes: Vec<SeedNode>)
    ensures
        final(types)@ == seed_types(old(types)@, move_input, jump_input),
        old(types).wf() ==> final(types).wf(),
        final(panel)@ == seed_rows(old(panel)@, old(types)@, move_input, jump_input),
        node_views(nodes@) == seed_nodes(move_input, jump_input),
{
    let first = types.insert(
        StateTypeData::with_id(move_input, "Move Input Held", StateType::Bool),
    );
    let second = types.insert(
        StateTypeData::with_id(jump_input, "Jump Input Held", StateType::Bool),
    );
    let _ = add_state_to_side_panel(panel, first, types);
    let _ = add_state_to_side_panel(panel, second, types);
    let mut nodes: Vec<SeedNode> = Vec::new();
    nodes.push(seed_state("Idle", 50, 50, move_input, false, jump_input, false));
    nodes.push(seed_state("Hovering", 50, 250, move_input, true, jump_input, true));
    nodes.push(seed_state("Walking", 500, 100, move_input, true, jump_input, false));
    nodes.push(seed_state("Jumping", 500, 300, move_input, false, jump_input, true));
    nodes
}

/// The editor holds its starting contents under some pair of identifiers.
pub open spec fn is_set_up(
    types_before: Map<u128, StateTypeView>,
    rows_before: Seq<PanelRowView>,
    types: Map<u128, StateTypeView>,
    rows: Seq<PanelRowView>,
    nodes: Seq<SeedNodeView>,
) -> bool {
    exists|move_input: StateId, jump_input: StateId|
        {
            &&& types == seed_types(types_before, move_input, jump_input)
            &&& rows == seed_rows(rows_before, types_before, move_input, jump_input)
            &&& nodes == #[trigger] seed_nodes(move_input, jump_input)
        }
}

/// Fills the editor with its starting contents under two new random
/// identifiers.
pub fn setup(types: &mut StateTypes, panel: &mut SidePanel) -> (nodes: Vec<SeedNode>)
    ensures
        is_set_up(old(types)@, old(panel)@, final(types)@, final(panel)@, node_views(nodes@)),
        old(types).wf() ==> final(types).wf(),
{
    let move_input = StateId::generate();
    let jump_input = StateId::generate();
    setup_with(move_input, jump_input, types, panel)
}

} // verus!
