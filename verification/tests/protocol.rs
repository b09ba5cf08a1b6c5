use sketchbook::analysis_results::AnalysisResults;
use sketchbook::binary_op::BinaryOp;
use sketchbook::data_structs::{ChangeArgMonotoneData, LayoutMetaData, LayoutNodeData,
    RegulationData, VariableData};
use sketchbook::entities::{Monotonicity, Observability, RegulationSign};
use sketchbook::event_utils::{make_reversible, make_state_change, mk_dyn_prop_event,
    mk_model_event, mk_model_state_change, mk_obs_event, mk_stat_prop_event};
use sketchbook::events::Event;
use sketchbook::ids::VarId;
use sketchbook::observations::{Dataset, Observation, ObservationManager, VarValue};
use sketchbook::undo_stack::{UndoStack, UndoStackEntry};
use std::time::Duration;

#[test]
fn test_variable_data_json_round_trip() {
    // Values with the escaped characters exercise both codec directions.
    let data = VariableData::new("v_1", "a \"quoted\" na\\me", "a & b");
    let text = data.to_json_str();
    let back = VariableData::from_json_str(text.as_str()).unwrap();
    assert_eq!(back, data);
    assert_eq!(text, "{\"id\":\"v_1\",\"name\":\"a \\\"quoted\\\" na\\\\me\",\"update_fn\":\"a & b\"}");
    // Text that is no encoding of variable data is rejected.
    assert!(VariableData::from_json_str("{\"id\":\"v_1\"}").is_none());
    assert!(VariableData::from_json_str("nonsense").is_none());
}

#[test]
fn test_regulation_data_json_round_trip() {
    let data = RegulationData::new(
        "a".to_string(),
        "b".to_string(),
        Observability::True,
        RegulationSign::Inhibition,
    );
    let text = data.to_json_str();
    assert_eq!(
        text,
        "{\"regulator\":\"a\",\"target\":\"b\",\"sign\":\"Inhibition\",\"observable\":\"True\"}"
    );
    let back = RegulationData::from_json_str(text.as_str()).unwrap();
    assert_eq!(back, data);
}

#[test]
fn test_change_arg_json_round_trip() {
    // A two-digit index exercises the decimal codec in both directions.
    let data = ChangeArgMonotoneData::new(12, Monotonicity::Dual);
    let text = data.to_json_str();
    assert_eq!(text, "{\"idx\":\"12\",\"monotonicity\":\"Dual\"}");
    let back = ChangeArgMonotoneData::from_json_str(text.as_str()).unwrap();
    assert_eq!(back, data);
    // A non-canonical index is rejected.
    assert!(ChangeArgMonotoneData::from_json_str("{\"idx\":\"012\",\"monotonicity\":\"Dual\"}")
        .is_none());
}

#[test]
fn test_regulation_string_forms() {
    let activation = RegulationData::try_from_reg_str("a -> b").unwrap();
    assert_eq!(activation.sign, RegulationSign::Activation);
    assert_eq!(activation.observable, Observability::True);

    let inhibition = RegulationData::try_from_reg_str("a -| b").unwrap();
    assert_eq!(inhibition.sign, RegulationSign::Inhibition);

    let hidden = RegulationData::try_from_reg_str("a ->? b").unwrap();
    assert_eq!(hidden.observable, Observability::False);
    assert_eq!(hidden.regulator, "a");
    assert_eq!(hidden.target, "b");

    assert!(RegulationData::try_from_reg_str("ab").is_err());
    assert!(RegulationData::try_from_reg_str("a - b").is_err());
    assert!(RegulationData::try_from_reg_str("a -> ").is_err());
}

#[test]
fn test_dataset_from_tabular_text() {
    // This drives the real tabular reader: a result echoing the raw text
    // would fail every shape assertion below.
    let text = "ID,v_a,v_b\no1,0,1\no2,1,*\n";
    let dataset = ObservationManager::parse_dataset("study", text).unwrap();
    assert_eq!(dataset.num_variables(), 2);
    assert_eq!(dataset.num_observations(), 2);
    assert_eq!(dataset.variables, vec!["v_a".to_string(), "v_b".to_string()]);
    assert_eq!(dataset.observations[0].id, "o1");
    assert_eq!(dataset.observations[0].values, vec![VarValue::False, VarValue::True]);
    assert_eq!(dataset.observations[1].id, "o2");
    assert_eq!(dataset.observations[1].values, vec![VarValue::True, VarValue::Any]);

    // A malformed value makes the import fail.
    assert!(ObservationManager::parse_dataset("study", "ID,v_a\no1,2\n").is_err());

    let mut manager = ObservationManager::new();
    manager.add_dataset_by_str("study", dataset.clone()).unwrap();
    assert_eq!(manager.num_datasets(), 1);
    assert!(manager.add_dataset_by_str("study", dataset).is_err());
    assert_eq!(manager.get_dataset("study").unwrap().num_observations(), 2);
}

#[test]
fn test_observation_and_dataset_errors() {
    assert!(Observation::new(vec![VarValue::True], "not an id").is_err());
    let o1 = Observation::new(vec![VarValue::True, VarValue::Any], "o1").unwrap();
    let o2 = Observation::new(vec![VarValue::False], "o2").unwrap();
    let vars = vec!["x".to_string(), "y".to_string()];
    assert!(Dataset::new("d", vec![o1.clone(), o2], vars.clone()).is_err());
    assert!(Dataset::new("d", vec![o1], vars).is_ok());
    assert_eq!(VarValue::from_str("*").unwrap(), VarValue::Any);
    assert!(VarValue::from_str("x").is_err());
}

#[test]
fn test_event_builders() {
    let ev = mk_model_event(&["variable".to_string(), "add".to_string()], Some("payload"));
    assert_eq!(ev.path, vec!["sketch", "model", "variable", "add"]);
    assert_eq!(ev.payload, Some("payload".to_string()));

    let sc = mk_model_state_change(&["variable".to_string()], "data");
    assert_eq!(sc.path, vec!["sketch", "model", "variable"]);

    let obs = mk_obs_event(&["load".to_string()], None);
    assert_eq!(obs.path, vec!["sketch", "observations", "load"]);
    assert_eq!(obs.payload, None);

    let dynp = mk_dyn_prop_event(&["add".to_string()], None);
    assert_eq!(dynp.path, vec!["sketch", "properties", "dynamic", "add"]);
    let statp = mk_stat_prop_event(&["add".to_string()], None);
    assert_eq!(statp.path, vec!["sketch", "properties", "static", "add"]);

    let change = make_state_change(&["set-name".to_string()], "x");
    assert_eq!(change.path, vec!["set-name"]);

    let original = Event::build(&["a".to_string()], None);
    let reverse = Event::build(&["b".to_string()], None);
    let consumed = make_reversible(change, &original, reverse);
    match consumed {
        sketchbook::consumed::Consumed::Reversible { perform_reverse, .. } => {
            assert_eq!(perform_reverse.0, original);
            assert_eq!(perform_reverse.1.path, vec!["b"]);
        },
        _ => panic!(),
    }
}

#[test]
fn test_undo_entry_payload_size() {
    let perform = Event::build(&["p".to_string()], Some("abcd"));
    let reverse = Event::build(&["r".to_string()], Some("ef"));
    let entry = UndoStackEntry { perform_action: perform, reverse_action: reverse };
    assert_eq!(entry.payload_size(), 6);

    // An event without payload accounts for nothing.
    let bare = Event::build(&["p".to_string()], None);
    assert_eq!(bare.payload_size(), 0);
}

#[test]
fn test_redo_cleared_by_new_action() {
    // A new action after undoing discards the alternate future.
    let mut stack = UndoStack::new(8, 64);
    let e1 = Event::build(&["one".to_string()], None);
    let e2 = Event::build(&["two".to_string()], None);
    assert!(stack.do_action(e1.clone(), e2.clone()));
    assert!(stack.do_action(e2.clone(), e1.clone()));
    assert_eq!(Some(e1.clone()), stack.undo_action());
    assert_eq!(Some(e2.clone()), stack.undo_action());
    assert_eq!(2, stack.redo_len());
    assert!(stack.do_action(e1.clone(), e2.clone()));
    assert_eq!(0, stack.redo_len());
    assert_eq!(1, stack.undo_len());
}

#[test]
fn test_misc_components() {
    let mut results = AnalysisResults::new(42, Duration::from_secs(7), "started");
    assert_eq!(results.num_sat_networks, 42);
    assert_eq!(results.comp_time, 7);
    results.append_metadata(", finished");
    assert_eq!(results.metadata_log, "started, finished");

    assert_eq!(BinaryOp::Imp.symbol(), "=>");
    assert_eq!(BinaryOp::from_symbol("<=>"), Some(BinaryOp::Iff));
    assert_eq!(BinaryOp::from_symbol("?"), None);
    // The conversion hands the same operator to the network library and back.
    let lib_op = BinaryOp::Xor.to_lib_param_bn_version();
    assert_eq!(lib_op, biodivine_lib_param_bn::BinaryOp::Xor);
    assert_eq!(BinaryOp::from_lib_param_bn_version(lib_op), BinaryOp::Xor);

    let meta = LayoutMetaData::new("main", "Main layout");
    assert_eq!(meta.to_json_str(), "{\"id\":\"main\",\"name\":\"Main layout\"}");

    let node = LayoutNodeData::new("main", "v", "3.5", "1.25");
    let back = LayoutNodeData::from_json_str(node.to_json_str().as_str()).unwrap();
    assert_eq!(back, node);

    assert!(VarId::new("ok_id9").is_ok());
    assert!(VarId::new("bad id").is_err());
    assert!(VarId::new("").is_err());
}

#[test]
fn test_model_refresh_lists() {
    let mut model = sketchbook::model::ModelState::new();
    model.add_var_by_str("a", "a_name").unwrap();
    model.add_regulation_by_str("a -> a").unwrap();

    let full = vec!["model".to_string(), "get_variables".to_string()];
    let ev = model.refresh(&full, &full[1..]).unwrap();
    assert_eq!(ev.path, full);
    assert_eq!(
        ev.payload,
        Some("[{\"id\":\"a\",\"name\":\"a_name\",\"update_fn\":\"\"}]".to_string())
    );

    let full = vec!["model".to_string(), "get_regulations".to_string()];
    let ev = model.refresh(&full, &full[1..]).unwrap();
    assert_eq!(
        ev.payload,
        Some(
            "[{\"regulator\":\"a\",\"target\":\"a\",\"sign\":\"Activation\",\"observable\":\"True\"}]"
                .to_string()
        )
    );

    let full = vec!["model".to_string(), "get_layout_nodes".to_string(), "default".to_string()];
    let ev = model.refresh(&full, &full[1..]).unwrap();
    assert_eq!(
        ev.payload,
        Some("[{\"layout\":\"default\",\"variable\":\"a\",\"px\":\"0\",\"py\":\"0\"}]".to_string())
    );

    let full = vec!["model".to_string(), "unknown_query".to_string()];
    assert!(model.refresh(&full, &full[1..]).is_err());
}
