use state_machine::registry::{StateId, StateType, StateTypeData, StateTypes};
use state_machine::state::{State, StateTypeValue, StateValue};

fn value(id: u128, held: bool) -> StateValue {
    StateValue { state: StateId::from_bits(id), value: StateTypeValue::Bool(held) }
}

#[test]
fn new_state_keeps_name_and_attributes() {
    let state = State::new("Idle", vec![value(1, false), value(2, true)]);
    assert_eq!(state.name, "Idle");
    assert_eq!(state.state, vec![value(1, false), value(2, true)]);
}

#[test]
fn state_is_bound_when_every_type_is_registered() {
    let mut types = StateTypes::new();
    types.insert(StateTypeData::with_id(StateId::from_bits(1), "Move Input Held", StateType::Bool));
    assert!(State::new("Idle", vec![]).is_bound(&types));
    assert!(State::new("Idle", vec![value(1, false), value(1, true)]).is_bound(&types));
    assert!(!State::new("Idle", vec![value(1, false), value(2, true)]).is_bound(&types));
    assert!(!State::new("Idle", vec![value(2, false)]).is_bound(&types));
}

#[test]
fn forget_type_drops_only_the_attributes_of_that_type() {
    let mut state =
        State::new("Idle", vec![value(1, false), value(2, true), value(1, true), value(3, false)]);
    state.forget_type(StateId::from_bits(1));
    assert_eq!(state.name, "Idle");
    assert_eq!(state.state, vec![value(2, true), value(3, false)]);
    state.forget_type(StateId::from_bits(9));
    assert_eq!(state.state, vec![value(2, true), value(3, false)]);
}
