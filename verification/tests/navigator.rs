use loctool::search::SearchResult;
use loctool::search_print::{
    nav_step, position_matches, total_matches, NavAction, NavEvent, NavigatorState,
};

fn feed(start: NavigatorState, events: &[NavEvent]) -> (NavigatorState, NavAction) {
    let mut state = start;
    let mut action = NavAction::Continue;
    for event in events {
        let (next, act) = nav_step(state, *event);
        state = next;
        action = act;
    }
    (state, action)
}

#[test]
fn digit_composition_and_erase() {
    // '2' then '3' then Enter selects file 23; one Backspace before the
    // Enter leaves file 2 composed.
    let start = NavigatorState::new();
    let (state, action) = feed(
        start,
        &[NavEvent::Digit(2), NavEvent::Digit(3), NavEvent::Confirm],
    );
    assert_eq!(state.file_index, 23);
    assert!(state.file_selected);
    assert!(!state.line_selected);
    assert_eq!(action, NavAction::Continue);

    let (state, _) = feed(start, &[NavEvent::Digit(2), NavEvent::Digit(3), NavEvent::Erase]);
    assert_eq!(state.file_index, 2);
    assert!(!state.file_selected);
}

#[test]
fn full_selection_dispatches() {
    let (state, action) = feed(
        NavigatorState::new(),
        &[
            NavEvent::Digit(1),
            NavEvent::Digit(2),
            NavEvent::Confirm,
            NavEvent::Digit(4),
            NavEvent::Confirm,
        ],
    );
    assert_eq!(state.file_index, 12);
    assert_eq!(state.line_index, 4);
    assert!(state.file_selected);
    assert!(state.line_selected);
    assert_eq!(action, NavAction::Dispatch);
}

#[test]
fn confirm_without_composed_index_is_inert() {
    let (state, action) = feed(NavigatorState::new(), &[NavEvent::Confirm]);
    assert_eq!(state, NavigatorState::new());
    assert_eq!(action, NavAction::Continue);
}

#[test]
fn quit_leaves_state_untouched() {
    let (state, action) = feed(NavigatorState::new(), &[NavEvent::Digit(7), NavEvent::Quit]);
    assert_eq!(state.file_index, 7);
    assert_eq!(action, NavAction::Quit);
}

#[test]
fn other_keys_are_ignored() {
    let (state, action) = feed(NavigatorState::new(), &[NavEvent::Digit(3), NavEvent::Other]);
    assert_eq!(state.file_index, 3);
    assert_eq!(action, NavAction::Continue);
}

#[test]
fn erase_line_digit_then_file_digit() {
    let (state, _) = feed(
        NavigatorState::new(),
        &[
            NavEvent::Digit(3),
            NavEvent::Confirm,
            NavEvent::Digit(4),
            NavEvent::Digit(2),
            NavEvent::Erase,
        ],
    );
    assert_eq!(state.line_index, 4);
    assert!(state.file_selected);

    // Erasing the single remaining line digit, then the file digit,
    // returns to the start state.
    let (state, _) = feed(state, &[NavEvent::Erase, NavEvent::Erase]);
    assert_eq!(state, NavigatorState::new());
}

#[test]
fn position_filtering_by_decimal_prefix() {
    assert!(position_matches(2, 2));
    assert!(position_matches(2, 23));
    assert!(position_matches(23, 23));
    assert!(position_matches(23, 234));
    assert!(!position_matches(23, 24));
    assert!(!position_matches(23, 2));
    assert!(!position_matches(3, 23));
    assert!(position_matches(1, 19));
    assert!(!position_matches(9, 19));
}

#[test]
fn total_match_count() {
    let mut a = SearchResult::new("a.rs".to_string());
    a.lines.push((3, "x".to_string()));
    a.lines.push((9, "y".to_string()));
    let mut b = SearchResult::new("b.rs".to_string());
    b.lines.push((1, "z".to_string()));
    let list = vec![a, b];
    assert_eq!(total_matches(&list), 3);
}
