use state_machine::noodle::{Canvas, Connector, DropOutcome, Noodle};
use state_machine::panel::{
    update_side_panel_state_name, update_state_names, PanelRow, SidePanel, StateNameTextInput,
};
use state_machine::registry::{StateId, StateTypes};
use state_machine::render::{update_node, ConnectorVisual, Paint, RowVisual};
use state_machine::seed::{setup, setup_with, SeedNode};
use state_machine::state::{StateTypeValue, StateValue};
use state_machine::text_input::TextInput;

const MOVE: u128 = 1;
const JUMP: u128 = 2;

fn seeded() -> (StateTypes, SidePanel, Vec<SeedNode>) {
    let mut types = StateTypes::new();
    let mut panel = SidePanel::new();
    let nodes =
        setup_with(StateId::from_bits(MOVE), StateId::from_bits(JUMP), &mut types, &mut panel);
    (types, panel, nodes)
}

fn row(text: &str, held: bool) -> RowVisual {
    let color = if held { Paint::Green } else { Paint::Red };
    RowVisual {
        text: text.to_string(),
        color,
        exit: ConnectorVisual { direction: Connector::Exit, fill: color },
    }
}

fn panel_row(bits: u128, text: &str) -> PanelRow {
    PanelRow {
        state_type: StateNameTextInput(StateId::from_bits(bits)),
        input: TextInput(text.to_string()),
    }
}

#[test]
fn setup_stores_two_types_and_four_nodes() {
    let (types, panel, nodes) = seeded();
    assert_eq!(types.get(StateId::from_bits(MOVE)).unwrap().name, "Move Input Held");
    assert_eq!(types.get(StateId::from_bits(JUMP)).unwrap().name, "Jump Input Held");
    assert_eq!(panel.rows, vec![panel_row(MOVE, "Move Input Held"), panel_row(JUMP, "Jump Input Held")]);
    let summary: Vec<(&str, u16, u16, Vec<StateValue>)> = nodes
        .iter()
        .map(|node| (node.state.name.as_str(), node.left, node.top, node.state.state.clone()))
        .collect();
    let values = |move_held: bool, jump_held: bool| {
        vec![
            StateValue { state: StateId::from_bits(MOVE), value: StateTypeValue::Bool(move_held) },
            StateValue { state: StateId::from_bits(JUMP), value: StateTypeValue::Bool(jump_held) },
        ]
    };
    assert_eq!(
        summary,
        vec![
            ("Idle", 50, 50, values(false, false)),
            ("Hovering", 50, 250, values(true, true)),
            ("Walking", 500, 100, values(true, false)),
            ("Jumping", 500, 300, values(false, true)),
        ]
    );
}

#[test]
fn setup_with_one_identifier_for_both_types_keeps_the_later_name() {
    let mut types = StateTypes::new();
    let mut panel = SidePanel::new();
    setup_with(StateId::from_bits(5), StateId::from_bits(5), &mut types, &mut panel);
    assert_eq!(types.get(StateId::from_bits(5)).unwrap().name, "Jump Input Held");
    assert_eq!(panel.rows, vec![panel_row(5, "Jump Input Held"), panel_row(5, "Jump Input Held")]);
}

#[test]
fn setup_with_random_identifiers_binds_every_node() {
    let mut types = StateTypes::new();
    let mut panel = SidePanel::new();
    let nodes = setup(&mut types, &mut panel);
    assert_eq!(nodes.len(), 4);
    assert_eq!(panel.rows.len(), 2);
    assert_eq!(panel.rows[1].input, TextInput("Jump Input Held".to_string()));
    for node in &nodes {
        assert!(node.state.is_bound(&types));
        assert_eq!(node.state.state.len(), 2);
        assert_eq!(node.state.state[0].state, panel.rows[0].state_type.0);
        assert_eq!(node.state.state[1].state, panel.rows[1].state_type.0);
    }
}

#[test]
fn scenario_seed_nodes_render_alphabetically_with_matching_colors() {
    let (types, _, nodes) = seeded();
    let expected = [
        ("Idle", false, false),
        ("Hovering", true, true),
        ("Walking", true, false),
        ("Jumping", false, true),
    ];
    assert_eq!(nodes.len(), expected.len());
    for (node, (name, move_held, jump_held)) in nodes.iter().zip(expected) {
        let visual = update_node(&node.state, &types);
        assert_eq!(visual.label, name);
        assert_eq!(visual.enter, ConnectorVisual { direction: Connector::Enter, fill: Paint::White });
        assert_eq!(
            visual.rows,
            vec![row("Jump Input Held", jump_held), row("Move Input Held", move_held)]
        );
    }
}

#[test]
fn scenario_drag_from_exit_to_enter_connects_once() {
    let mut canvas: Canvas<(f32, f32)> = Canvas::new();
    let (a_exit, b_enter) = (1, 2);
    canvas.add_connector(a_exit, Connector::Exit);
    canvas.add_connector(b_enter, Connector::Enter);
    canvas.start_dragging_connector(a_exit, (10.0, 10.0)).unwrap();
    canvas.be_dragging_connector(a_exit, Some((400.0, 120.0))).unwrap();
    assert_eq!(canvas.drag_and_drop_connector(a_exit, b_enter), Ok(DropOutcome::Connected));
    assert_eq!(canvas.stop_dragging_connector(a_exit), None);
    assert_eq!(canvas.noodle_count(), 1);
    assert_eq!(
        canvas.noodle_entry(0).value,
        Noodle::Connected { start_connector: a_exit, end_connector: b_enter }
    );
    let again = canvas.start_dragging_connector(a_exit, (10.0, 10.0)).unwrap();
    assert_eq!(canvas.drag_and_drop_connector(a_exit, b_enter), Ok(DropOutcome::AlreadyConnected));
    assert_eq!(canvas.stop_dragging_connector(a_exit), Some(again));
    assert_eq!(canvas.noodle_count(), 1);
    assert_eq!(
        canvas.noodle_entry(0).value,
        Noodle::Connected { start_connector: a_exit, end_connector: b_enter }
    );
}

#[test]
fn scenario_release_over_empty_canvas_leaves_no_connection() {
    let mut canvas: Canvas<(f32, f32)> = Canvas::new();
    canvas.add_connector(1, Connector::Exit);
    canvas.add_connector(2, Connector::Enter);
    let noodle = canvas.start_dragging_connector(1, (10.0, 10.0)).unwrap();
    canvas.be_dragging_connector(1, Some((250.0, 250.0))).unwrap();
    assert_eq!(canvas.stop_dragging_connector(1), Some(noodle));
    assert_eq!(canvas.noodle_count(), 0);
    assert!(!canvas.are_joined(1, 2));
}

#[test]
fn scenario_rename_through_the_panel() {
    let (mut types, mut panel, nodes) = seeded();
    panel.rows[0].input = TextInput(String::new());
    assert_eq!(update_state_names(&mut panel, 0, &mut types), Ok(None));
    assert_eq!(panel.rows[0], panel_row(MOVE, "Move Input Held"));
    assert_eq!(types.get(StateId::from_bits(MOVE)).unwrap().name, "Move Input Held");

    panel.rows[0].input = TextInput("Moving".to_string());
    let changed = update_state_names(&mut panel, 0, &mut types).unwrap().unwrap();
    assert_eq!(changed.state_type, StateId::from_bits(MOVE));
    assert_eq!(changed.name, "Moving");
    update_side_panel_state_name(&mut panel, &changed);
    assert_eq!(panel.rows, vec![panel_row(MOVE, "Moving"), panel_row(JUMP, "Jump Input Held")]);
    let held = [(false, false), (true, true), (true, false), (false, true)];
    for (node, (move_held, jump_held)) in nodes.iter().zip(held) {
        assert_eq!(
            update_node(&node.state, &types).rows,
            vec![row("Jump Input Held", jump_held), row("Moving", move_held)]
        );
    }
}
