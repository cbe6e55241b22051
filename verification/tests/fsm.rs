use modal_editor::state_machine::FSM;

#[test]
fn test_get_empty_state() {
    let fsm = FSM::<String, String>::new();
    let state = String::from("state");
    let event = String::from("event");
    assert_eq!(fsm.next_state(&state, &event), None);
}

#[test]
fn test_get_existing_state() {
    let mut fsm = FSM::<String, String>::new();
    let state1 = String::from("state1");
    let state2 = String::from("state2");
    let event = String::from("event");
    fsm.add_transition(state1.clone(), event.clone(), state2.clone());
    assert_eq!(fsm.next_state(&state1, &event), Some(state2));
}

#[test]
fn last_registration_wins() {
    let mut fsm = FSM::<u32, u32>::new();
    fsm.add_transition(1, 7, 2);
    fsm.add_transition(1, 7, 3);
    assert_eq!(fsm.next_state(&1, &7), Some(3));
    assert_eq!(fsm.next_state(&2, &7), None);
    assert_eq!(fsm.next_state(&1, &8), None);
}
