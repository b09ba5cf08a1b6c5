use sketchbook::events::Event;
use sketchbook::undo_stack::UndoStack;

fn with_action(path: &[&str], action: &str) -> Event {
    let mut segments: Vec<String> = path.iter().map(|s| s.to_string()).collect();
    segments.push(action.to_string());
    Event::build(&segments, None)
}

fn with_action_and_payload(path: &[&str], action: &str, payload: &str) -> Event {
    let mut segments: Vec<String> = path.iter().map(|s| s.to_string()).collect();
    segments.push(action.to_string());
    Event::build(&segments, Some(payload))
}

#[test]
pub fn test_normal_behaviour() {
    let mut stack = UndoStack::default();
    let e1 = with_action(&[], "action 1");
    let e2 = with_action(&[], "action 2");

    // We can do a bunch of events and undo/redo them.
    assert!(stack.do_action(e1.clone(), e2.clone()));
    assert!(stack.do_action(e2.clone(), e1.clone()));
    assert_eq!(2, stack.undo_len());
    assert_eq!(Some(e1.clone()), stack.undo_action());
    assert_eq!(1, stack.undo_len());
    assert_eq!(1, stack.redo_len());
    assert_eq!(Some(e2.clone()), stack.undo_action());
    assert_eq!(None, stack.undo_action());
    assert_eq!(Some(e1.clone()), stack.redo_action());
    assert_eq!(Some(e2.clone()), stack.redo_action());
    assert_eq!(None, stack.redo_action());
    assert_eq!(2, stack.undo_len());

    // If we start doing something else, the redo stack is lost.
    assert_eq!(Some(e1.clone()), stack.undo_action());
    assert_eq!(1, stack.redo_len());
    assert!(stack.do_action(e1.clone(), e2.clone()));
    assert_eq!(0, stack.redo_len());
    assert_eq!(2, stack.undo_len());
    assert_eq!(Some(e2.clone()), stack.undo_action());
}

#[test]
pub fn test_basic_limits() {
    let e1 = with_action(&[], "action 1");
    let e2 = with_action(&[], "action 2");
    let e3 = with_action_and_payload(&["path"], "action 3", "some payload");

    let mut stack = UndoStack::new(4, 2 * e3.payload_size() + 1);

    // Test that the event limit is respected. We should be able to fit 4 events.
    assert!(stack.do_action(e2.clone(), e1.clone()));
    assert!(stack.do_action(e1.clone(), e2.clone()));
    assert!(stack.do_action(e1.clone(), e2.clone()));
    assert_eq!(3, stack.undo_len());
    assert!(stack.do_action(e1.clone(), e2.clone()));
    assert_eq!(4, stack.undo_len());
    // Here, an event should be dropped, but we can still undo the events.
    assert!(stack.do_action(e1.clone(), e2.clone()));
    assert_eq!(4, stack.undo_len());
    assert_eq!(Some(e2.clone()), stack.undo_action());
    assert_eq!(Some(e2.clone()), stack.undo_action());
    assert_eq!(Some(e2.clone()), stack.undo_action());
    assert_eq!(Some(e2.clone()), stack.undo_action());
    assert_eq!(None, stack.undo_action());

    // Test that the payload limit is respected. We should be able to fit two
    // events including payload.
    assert!(stack.do_action(e2.clone(), e1.clone()));
    assert!(stack.do_action(e3.clone(), e1.clone()));
    assert!(stack.do_action(e2.clone(), e3.clone()));
    assert_eq!(3, stack.undo_len());
    // This should drop the first two events.
    assert!(stack.do_action(e2.clone(), e3.clone()));
    assert_eq!(2, stack.undo_len());
    // This should just drop everything except for the last event.
    assert!(stack.do_action(e3.clone(), e3.clone()));
    assert_eq!(1, stack.undo_len());
    assert_eq!(Some(e3.clone()), stack.undo_action());
    assert_eq!(Some(e3.clone()), stack.redo_action());
}

#[test]
pub fn test_extreme_limits() {
    let e1 = with_action(&[], "action 1");
    let e2 = with_action(&[], "action 2");
    let e3 = with_action_and_payload(&["path"], "action 3", "some payload");

    let mut stack = UndoStack::new(0, 1024);
    // Cannot perform action because the stack size is zero.
    assert!(!stack.do_action(e1.clone(), e2.clone()));

    let mut stack = UndoStack::new(8, 8);
    // Can push events without payload, but events with payload are not possible.
    assert!(stack.do_action(e1.clone(), e2.clone()));
    assert!(!stack.do_action(e1.clone(), e3.clone()));
    assert_eq!(0, stack.undo_len());
}
