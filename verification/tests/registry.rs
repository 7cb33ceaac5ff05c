use state_machine::registry::{
    RegistryError, StateId, StateType, StateTypeAdded, StateTypeData, StateTypeNameChanged,
    StateTypeRemoved, StateTypes,
};

fn registry_with(id: u128, name: &str) -> StateTypes {
    let mut types = StateTypes::new();
    types.insert(StateTypeData::with_id(StateId::from_bits(id), name, StateType::Bool));
    types
}

#[test]
fn new_registry_holds_nothing() {
    let types = StateTypes::new();
    assert!(!types.contains(StateId::from_bits(0)));
    assert!(types.get(StateId::from_bits(0)).is_none());
    let by_default = StateTypes::default();
    assert!(!by_default.contains(StateId::from_bits(0)));
}

#[test]
fn insert_then_get_returns_the_type() {
    let mut types = StateTypes::new();
    let id = StateId::from_bits(7);
    let added = types.insert(StateTypeData::with_id(id, "Move Input Held", StateType::Bool));
    assert_eq!(added, StateTypeAdded { state_type: id });
    let found = types.get(id).unwrap();
    assert_eq!(found.name, "Move Input Held");
    assert_eq!(found.id, id);
    assert_eq!(found.state_type, StateType::Bool);
    assert!(types.contains(id));
    assert!(!types.contains(StateId::from_bits(8)));
}

#[test]
fn insert_overwrites_the_type_stored_under_the_same_id() {
    let mut types = registry_with(7, "Move Input Held");
    types.insert(StateTypeData::with_id(StateId::from_bits(7), "Jump Input Held", StateType::Bool));
    assert_eq!(types.get(StateId::from_bits(7)).unwrap().name, "Jump Input Held");
}

#[test]
fn insert_keeps_the_other_types() {
    let mut types = registry_with(1, "Move Input Held");
    types.insert(StateTypeData::with_id(StateId::from_bits(2), "Jump Input Held", StateType::Bool));
    assert_eq!(types.get(StateId::from_bits(1)).unwrap().name, "Move Input Held");
    assert_eq!(types.get(StateId::from_bits(2)).unwrap().name, "Jump Input Held");
}

#[test]
fn rename_unknown_type_is_not_found() {
    let mut types = registry_with(1, "Move Input Held");
    let outcome = types.rename(StateId::from_bits(2), "Moving");
    assert_eq!(outcome, Err(RegistryError::NotFound));
    assert_eq!(types.get(StateId::from_bits(1)).unwrap().name, "Move Input Held");
    assert!(!types.contains(StateId::from_bits(2)));
}

#[test]
fn rename_to_empty_keeps_the_stored_name() {
    let mut types = registry_with(1, "Move Input Held");
    let outcome = types.rename(StateId::from_bits(1), "");
    assert_eq!(outcome, Ok(None));
    assert_eq!(types.get(StateId::from_bits(1)).unwrap().name, "Move Input Held");
}

#[test]
fn rename_to_the_same_name_announces_nothing() {
    let mut types = registry_with(1, "Move Input Held");
    let outcome = types.rename(StateId::from_bits(1), "Move Input Held");
    assert_eq!(outcome, Ok(None));
    assert_eq!(types.get(StateId::from_bits(1)).unwrap().name, "Move Input Held");
}

#[test]
fn rename_to_a_new_name_updates_and_announces_once() {
    let mut types = registry_with(1, "Move Input Held");
    types.insert(StateTypeData::with_id(StateId::from_bits(2), "Jump Input Held", StateType::Bool));
    let outcome = types.rename(StateId::from_bits(1), "Moving");
    assert_eq!(
        outcome,
        Ok(Some(StateTypeNameChanged { state_type: StateId::from_bits(1), name: "Moving".to_string() }))
    );
    let stored = types.get(StateId::from_bits(1)).unwrap();
    assert_eq!(stored.name, "Moving");
    assert_eq!(stored.id, StateId::from_bits(1));
    assert_eq!(stored.state_type, StateType::Bool);
    assert_eq!(types.get(StateId::from_bits(2)).unwrap().name, "Jump Input Held");
    assert_eq!(types.rename(StateId::from_bits(1), "Moving"), Ok(None));
}

#[test]
fn remove_takes_the_type_out_and_announces_it() {
    let mut types = registry_with(1, "Move Input Held");
    types.insert(StateTypeData::with_id(StateId::from_bits(2), "Jump Input Held", StateType::Bool));
    let removed = types.remove(StateId::from_bits(1));
    assert_eq!(removed, Some(StateTypeRemoved { state_type: StateId::from_bits(1) }));
    assert!(!types.contains(StateId::from_bits(1)));
    assert!(types.contains(StateId::from_bits(2)));
    assert_eq!(types.remove(StateId::from_bits(1)), None);
}

#[test]
fn identifiers_compare_by_their_bits() {
    assert_eq!(StateId::from_bits(5), StateId::from_bits(5));
    assert_ne!(StateId::from_bits(5), StateId::from_bits(6));
    assert_eq!(StateId::from_bits(0xa1a2a3a4b1b2c1c2d1d2d3d4d5d6d7d8).bits(), 0xa1a2a3a4b1b2c1c2d1d2d3d4d5d6d7d8);
}

#[test]
fn generated_identifiers_differ() {
    let first = StateId::generate();
    let second = StateId::generate();
    let third = StateId::generate();
    assert!(first != second || second != third);
}

#[test]
fn new_type_takes_name_and_kind() {
    let data = StateTypeData::new("Move Input Held", StateType::Bool);
    assert_eq!(data.name, "Move Input Held");
    assert_eq!(data.state_type, StateType::Bool);
    let other = StateTypeData::new("Move Input Held", StateType::Bool);
    let third = StateTypeData::new("Move Input Held", StateType::Bool);
    assert!(data.id != other.id || other.id != third.id);
}

#[test]
fn the_crate_root_names_the_data_model() {
    let mut types = state_machine::StateTypes::new();
    let id = state_machine::StateId::from_bits(3);
    types.insert(state_machine::StateTypeData::with_id(id, "Jump Input Held", state_machine::StateType::Bool));
    let state = state_machine::State::new(
        "Jumping",
        vec![state_machine::StateValue { state: id, value: state_machine::StateTypeValue::Bool(true) }],
    );
    assert!(state.is_bound(&types));
    assert_eq!(state_machine::Connector::Enter, state_machine::noodle::Connector::Enter);
}
