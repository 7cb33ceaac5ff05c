use state_machine::panel::{
    add_state_to_side_panel, remove_state_from_side_panel, update_side_panel_state_name,
    update_state_names, PanelError, PanelRow, SidePanel, StateNameTextInput,
};
use state_machine::registry::{
    StateId, StateType, StateTypeAdded, StateTypeData, StateTypeNameChanged, StateTypeRemoved,
    StateTypes,
};
use state_machine::text_input::TextInput;

fn id(bits: u128) -> StateId {
    StateId::from_bits(bits)
}

fn panel_row(bits: u128, text: &str) -> PanelRow {
    PanelRow { state_type: StateNameTextInput(id(bits)), input: TextInput(text.to_string()) }
}

fn seeded() -> (StateTypes, SidePanel) {
    let mut types = StateTypes::new();
    let mut panel = SidePanel::new();
    let first = types.insert(StateTypeData::with_id(id(1), "Move Input Held", StateType::Bool));
    let second = types.insert(StateTypeData::with_id(id(2), "Jump Input Held", StateType::Bool));
    add_state_to_side_panel(&mut panel, first, &types).unwrap();
    add_state_to_side_panel(&mut panel, second, &types).unwrap();
    (types, panel)
}

#[test]
fn new_panel_has_no_rows() {
    assert!(SidePanel::new().rows.is_empty());
}

#[test]
fn added_type_gets_a_row_with_its_name() {
    let (_, panel) = seeded();
    assert_eq!(panel.rows, vec![panel_row(1, "Move Input Held"), panel_row(2, "Jump Input Held")]);
}

#[test]
fn adding_an_unknown_type_is_an_error() {
    let (types, mut panel) = seeded();
    let outcome = add_state_to_side_panel(&mut panel, StateTypeAdded { state_type: id(3) }, &types);
    assert_eq!(outcome, Err(PanelError::StateTypeNotFound));
    assert_eq!(panel.rows.len(), 2);
}

#[test]
fn removed_type_loses_all_its_rows() {
    let (types, mut panel) = seeded();
    add_state_to_side_panel(&mut panel, StateTypeAdded { state_type: id(1) }, &types).unwrap();
    remove_state_from_side_panel(&mut panel, StateTypeRemoved { state_type: id(1) });
    assert_eq!(panel.rows, vec![panel_row(2, "Jump Input Held")]);
    remove_state_from_side_panel(&mut panel, StateTypeRemoved { state_type: id(5) });
    assert_eq!(panel.rows, vec![panel_row(2, "Jump Input Held")]);
    remove_state_from_side_panel(&mut panel, StateTypeRemoved { state_type: id(2) });
    assert!(panel.rows.is_empty());
}

#[test]
fn new_name_reaches_every_row_of_the_type() {
    let (types, mut panel) = seeded();
    add_state_to_side_panel(&mut panel, StateTypeAdded { state_type: id(1) }, &types).unwrap();
    let changed = StateTypeNameChanged { state_type: id(1), name: "Moving".to_string() };
    update_side_panel_state_name(&mut panel, &changed);
    assert_eq!(
        panel.rows,
        vec![panel_row(1, "Moving"), panel_row(2, "Jump Input Held"), panel_row(1, "Moving")]
    );
    update_side_panel_state_name(&mut panel, &changed);
    assert_eq!(
        panel.rows,
        vec![panel_row(1, "Moving"), panel_row(2, "Jump Input Held"), panel_row(1, "Moving")]
    );
}

#[test]
fn committing_an_empty_text_reverts_to_the_stored_name() {
    let (mut types, mut panel) = seeded();
    panel.rows[0].input = TextInput(String::new());
    let outcome = update_state_names(&mut panel, 0, &mut types);
    assert_eq!(outcome, Ok(None));
    assert_eq!(panel.rows, vec![panel_row(1, "Move Input Held"), panel_row(2, "Jump Input Held")]);
    assert_eq!(types.get(id(1)).unwrap().name, "Move Input Held");
}

#[test]
fn committing_a_new_text_renames_the_type() {
    let (mut types, mut panel) = seeded();
    panel.rows[0].input = TextInput("Moving".to_string());
    let outcome = update_state_names(&mut panel, 0, &mut types);
    assert_eq!(
        outcome,
        Ok(Some(StateTypeNameChanged { state_type: id(1), name: "Moving".to_string() }))
    );
    assert_eq!(types.get(id(1)).unwrap().name, "Moving");
    assert_eq!(types.get(id(2)).unwrap().name, "Jump Input Held");
    assert_eq!(panel.rows, vec![panel_row(1, "Moving"), panel_row(2, "Jump Input Held")]);
}

#[test]
fn committing_the_stored_name_changes_nothing() {
    let (mut types, mut panel) = seeded();
    let outcome = update_state_names(&mut panel, 1, &mut types);
    assert_eq!(outcome, Ok(None));
    assert_eq!(panel.rows, vec![panel_row(1, "Move Input Held"), panel_row(2, "Jump Input Held")]);
    assert_eq!(types.get(id(2)).unwrap().name, "Jump Input Held");
}

#[test]
fn committing_a_row_that_does_not_exist_is_an_error() {
    let (mut types, mut panel) = seeded();
    assert_eq!(update_state_names(&mut panel, 2, &mut types), Err(PanelError::RowNotFound));
    assert_eq!(panel.rows.len(), 2);
}

#[test]
fn committing_a_row_of_a_removed_type_is_an_error() {
    let (mut types, mut panel) = seeded();
    types.remove(id(1));
    panel.rows[0].input = TextInput("Moving".to_string());
    assert_eq!(update_state_names(&mut panel, 0, &mut types), Err(PanelError::StateTypeNotFound));
    assert_eq!(panel.rows[0], panel_row(1, "Moving"));
    assert!(!types.contains(id(1)));
}

#[test]
fn rename_round_trip_through_the_panel_settles() {
    let (mut types, mut panel) = seeded();
    add_state_to_side_panel(&mut panel, StateTypeAdded { state_type: id(1) }, &types).unwrap();
    panel.rows[2].input = TextInput("Moving".to_string());
    let changed = update_state_names(&mut panel, 2, &mut types).unwrap().unwrap();
    update_side_panel_state_name(&mut panel, &changed);
    assert_eq!(
        panel.rows,
        vec![panel_row(1, "Moving"), panel_row(2, "Jump Input Held"), panel_row(1, "Moving")]
    );
    assert_eq!(update_state_names(&mut panel, 0, &mut types), Ok(None));
    assert_eq!(update_state_names(&mut panel, 2, &mut types), Ok(None));
}
