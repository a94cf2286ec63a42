use chat_core::history::InputHistory;

#[test]
fn save_empty_never_grows() {
    let mut h = InputHistory::new();
    h.save_input(String::new());
    assert_eq!(h.inputs.len(), 0);
    h.save_input(String::from("a"));
    h.save_input(String::new());
    assert_eq!(h.inputs.len(), 1);
    assert!(h.first);
}

#[test]
fn save_resets_the_cursor_to_no_selection() {
    let mut h = InputHistory::new();
    h.save_input(String::from("a"));
    h.save_input(String::from("b"));
    assert_eq!(h.current, -1);
    assert_eq!(h.recall(false), "b");
    assert_eq!(h.current, 1);
}

#[test]
fn first_recall_returns_saved_newer() {
    let mut h = InputHistory::new();
    h.save_input(String::from("x"));
    assert_eq!(h.recall(true), "x");
}

#[test]
fn first_recall_returns_saved_older() {
    let mut h = InputHistory::new();
    h.save_input(String::from("x"));
    assert_eq!(h.recall(false), "x");
}

#[test]
fn recall_backward_visits_all_then_stays_at_oldest() {
    let mut h = InputHistory::new();
    h.save_input(String::from("a"));
    h.save_input(String::from("b"));
    h.save_input(String::from("c"));
    assert_eq!(h.recall(false), "c");
    assert_eq!(h.recall(false), "b");
    assert_eq!(h.recall(false), "a");
    assert_eq!(h.recall(false), "a");
}

#[test]
fn recall_forward_visits_all_then_repeats() {
    let mut h = InputHistory::new();
    h.save_input(String::from("a"));
    h.save_input(String::from("b"));
    h.save_input(String::from("c"));
    assert_eq!(h.recall(true), "c");
    assert_eq!(h.recall(true), "a");
    assert_eq!(h.recall(true), "b");
    assert_eq!(h.recall(true), "c");
    assert_eq!(h.recall(true), "a");
}

#[test]
fn recall_on_empty_history_is_empty() {
    let mut h = InputHistory::new();
    assert_eq!(h.recall(true), "");
    assert_eq!(h.recall(false), "");
}

#[test]
fn set_current_history_index_normalizes() {
    let mut h = InputHistory::new();
    h.save_input(String::from("a"));
    h.save_input(String::from("b"));
    assert_eq!(h.set_current_history_index(5), 0);
    assert_eq!(h.set_current_history_index(-1), 1);
    assert_eq!(h.set_current_history_index(1), 1);
    assert_eq!(h.set_current_history_index(0), 0);
}

#[test]
fn check_first_is_one_shot() {
    let mut h = InputHistory::new();
    h.save_input(String::from("a"));
    assert!(h.check_first());
    assert!(!h.check_first());
}
