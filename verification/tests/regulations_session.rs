use sketchbook::consumed::Consumed;
use sketchbook::events::{Event, UserAction};
use sketchbook::ids::VarId;
use sketchbook::regulations_state::RegulationsState;

fn path_of(segments: &[&str]) -> Vec<String> {
    segments.iter().map(|s| s.to_string()).collect()
}

#[test]
fn _impl_session_state_test_add_var_event() {
    let mut reg_state = RegulationsState::new();
    let var_id_a = reg_state.generate_var_id("a");
    reg_state.add_var(var_id_a, "a").unwrap();
    let reg_state_orig = reg_state.clone();
    assert_eq!(reg_state.num_vars(), 1);

    // test variable add event
    let event = Event::build(&path_of(&["regulations_state", "variable", "add"]), Some("b"));
    let action = UserAction::from(event);
    let result = reg_state.consume_event(&path_of(&["variable", "add"]), &action).unwrap();

    // check var was added
    assert_eq!(reg_state.num_vars(), 2);
    assert_eq!(reg_state.get_var_id("b").unwrap(), VarId::new("b").unwrap());

    // assert that the reverse action is correct
    assert!(matches!(result, Consumed::Reversible { .. }));
    if let Consumed::Reversible { perform_reverse: (_, reverse), .. } = result {
        reg_state
            .consume_event(&path_of(&["variable", "remove"]), &UserAction::from(reverse))
            .unwrap();
        assert_eq!(reg_state, reg_state_orig);
    }
}

#[test]
fn test_remove_var_event() {
    let mut reg_state = RegulationsState::new();
    let var_id_a = reg_state.generate_var_id("a");
    reg_state.add_var(var_id_a, "a").unwrap();
    reg_state.add_regulation_by_str("a -> a").unwrap();
    assert_eq!(reg_state.num_vars(), 1);
    assert_eq!(reg_state.num_regulations(), 1);

    // test variable remove event
    let event = Event::build(&path_of(&["regulations_state", "variable", "remove"]), Some("a"));
    let action = UserAction::from(event);
    let result = reg_state.consume_event(&path_of(&["variable", "remove"]), &action).unwrap();

    // check var was removed
    assert_eq!(reg_state.num_vars(), 0);
    assert_eq!(reg_state.num_regulations(), 0);

    // assert that it is irreversible (at the moment)
    assert!(matches!(result, Consumed::Irreversible { .. }));
}

#[test]
fn _impl_session_state_test_set_var_name_event() {
    let mut reg_state = RegulationsState::new();
    let var_id = reg_state.generate_var_id("a");
    let original_name = "a_name";
    let new_name = "new_name";
    reg_state.add_var(var_id.clone(), original_name).unwrap();
    let reg_state_orig = reg_state.clone();
    assert_eq!(reg_state.get_var_name(&var_id).unwrap(), original_name);

    // test variable rename event
    let payload = format!(r#"{{"id":"{}","new_name":"{}"}}"#, var_id.as_str(), new_name);
    let event = Event::build(
        &path_of(&["regulations_state", "variable", "set_name"]),
        Some(payload.as_str()),
    );
    let action = UserAction::from(event);
    let result = reg_state.consume_event(&path_of(&["variable", "set_name"]), &action).unwrap();

    // check var was renamed
    assert_eq!(reg_state.get_var_name(&var_id).unwrap(), new_name);

    // assert that the reverse action is correct
    assert!(matches!(result, Consumed::Reversible { .. }));
    if let Consumed::Reversible { perform_reverse: (_, reverse), .. } = result {
        reg_state
            .consume_event(&path_of(&["variable", "set_name"]), &UserAction::from(reverse))
            .unwrap();
        assert_eq!(reg_state.get_var_name(&var_id).unwrap(), original_name);
        assert_eq!(reg_state, reg_state_orig);
    }
}

#[test]
fn _impl_session_state_test_set_var_id_event() {
    let mut reg_state = RegulationsState::new();
    let var_id = reg_state.generate_var_id("a");
    reg_state.add_var(var_id.clone(), "a_name").unwrap();
    let reg_state_orig = reg_state.clone();

    // test id change event
    let new_id = reg_state.generate_var_id("b");
    let payload = format!(
        r#"{{"original_id":"{}","new_id":"{}"}}"#,
        var_id.as_str(),
        new_id.as_str()
    );
    let event = Event::build(
        &path_of(&["regulations_state", "variable", "set_id"]),
        Some(payload.as_str()),
    );
    let action = UserAction::from(event);
    let result = reg_state.consume_event(&path_of(&["variable", "set_id"]), &action).unwrap();

    // check id changed
    assert!(!reg_state.is_valid_var_id(&var_id));
    assert!(reg_state.is_valid_var_id(&new_id));

    // assert that the reverse action is correct
    assert!(matches!(result, Consumed::Reversible { .. }));
    if let Consumed::Reversible { perform_reverse: (_, reverse), .. } = result {
        reg_state
            .consume_event(&path_of(&["variable", "set_id"]), &UserAction::from(reverse))
            .unwrap();
        assert_eq!(reg_state, reg_state_orig);
    }
}

#[test]
fn _impl_session_state_test_invalid_var_events() {
    let mut reg_state = RegulationsState::new();
    let var_id = reg_state.generate_var_id("a");
    reg_state.add_var(var_id.clone(), "a-name").unwrap();
    let reg_state_orig = reg_state.clone();

    // adding variable `a` again
    let event = Event::build(&path_of(&["regulations_state", "variable", "add"]), Some("a"));
    let action = UserAction::from(event);
    assert!(reg_state.consume_event(&path_of(&["variable", "add"]), &action).is_err());
    assert_eq!(reg_state, reg_state_orig);

    // removing variable with wrong id
    let event = Event::build(&path_of(&["regulations_state", "variable", "remove"]), Some("b"));
    let action = UserAction::from(event);
    assert!(reg_state.consume_event(&path_of(&["variable", "remove"]), &action).is_err());
    assert_eq!(reg_state, reg_state_orig);

    // variable rename event with wrong id
    let payload = r#"{"id":"b","new_name":"x"}"#;
    let event = Event::build(
        &path_of(&["regulations_state", "variable", "set_name"]),
        Some(payload),
    );
    let action = UserAction::from(event);
    assert!(reg_state.consume_event(&path_of(&["variable", "set_name"]), &action).is_err());
    assert_eq!(reg_state, reg_state_orig);
}
