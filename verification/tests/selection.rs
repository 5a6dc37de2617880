use notepad::notes::{Note, State};

fn note(date: i64, title: &str, content: &str) -> Note {
    Note { title: title.to_string(), content: content.to_string(), date }
}

fn three_notes() -> State {
    State {
        notes: vec![note(3, "A", "alpha"), note(2, "B", "beta"), note(1, "C", "gamma")],
    }
}

fn keys(state: &State) -> Vec<i64> {
    state.notes.iter().map(|n| n.date).collect()
}

#[test]
fn delete_selected_middle_selects_next() {
    // List = [A(3), B(2), C(1)], selection = B; deleting B selects C.
    let mut state = three_notes();
    let sel = state.delete_note(2, Some(2));
    assert_eq!(sel, Some(1));
    assert_eq!(keys(&state), vec![3, 1]);
}

#[test]
fn delete_selected_last_selects_previous() {
    // List = [A(3), B(2)], selection = B (last); deleting B selects A.
    let mut state = State { notes: vec![note(3, "A", "alpha"), note(2, "B", "beta")] };
    let sel = state.delete_note(2, Some(2));
    assert_eq!(sel, Some(3));
    assert_eq!(keys(&state), vec![3]);
}

#[test]
fn delete_sole_selected_clears_selection() {
    // List = [A(3)], selection = A; deleting A leaves nothing selected.
    let mut state = State { notes: vec![note(3, "A", "alpha")] };
    let sel = state.delete_note(3, Some(3));
    assert_eq!(sel, None);
    assert!(state.notes.is_empty());
}

#[test]
fn delete_selected_first_selects_next() {
    let mut state = three_notes();
    let sel = state.delete_note(3, Some(3));
    assert_eq!(sel, Some(2));
    assert_eq!(keys(&state), vec![2, 1]);
}

#[test]
fn delete_unselected_keeps_selection() {
    let mut state = three_notes();
    let sel = state.delete_note(1, Some(3));
    assert_eq!(sel, Some(3));
    assert_eq!(keys(&state), vec![3, 2]);
}

#[test]
fn delete_with_empty_selection_keeps_it_empty() {
    let mut state = three_notes();
    let sel = state.delete_note(2, None);
    assert_eq!(sel, None);
    assert_eq!(keys(&state), vec![3, 1]);
}

#[test]
fn delete_absent_key_changes_nothing() {
    let mut state = three_notes();
    let sel = state.delete_note(7, Some(2));
    assert_eq!(sel, Some(2));
    assert_eq!(keys(&state), vec![3, 2, 1]);
}

#[test]
fn adjust_selection_leaves_list_alone() {
    let state = three_notes();
    let sel = state.adjust_selection(2, Some(2));
    assert_eq!(sel, Some(1));
    assert_eq!(keys(&state), vec![3, 2, 1]);
}

#[test]
fn adjust_selection_of_unselected_key() {
    let state = three_notes();
    assert_eq!(state.adjust_selection(1, Some(2)), Some(2));
    assert_eq!(state.adjust_selection(3, None), None);
}

#[test]
fn add_note_inserts_at_front_and_selects() {
    let mut state = State { notes: vec![note(2, "B", "beta"), note(1, "C", "gamma")] };
    let sel = state.add_note(5, "T".to_string(), "body".to_string());
    assert_eq!(sel, 5);
    assert_eq!(keys(&state), vec![5, 2, 1]);
    assert_eq!(state.notes[0].title, "T");
    assert_eq!(state.notes[0].content, "body");
}

#[test]
fn add_note_to_empty_list() {
    let mut state = State::default();
    let sel = state.add_note(9, "T".to_string(), "body".to_string());
    assert_eq!(sel, 9);
    assert_eq!(keys(&state), vec![9]);
}

#[test]
fn add_note_now_uses_a_fresh_clock_key() {
    let mut state = State::default();
    let sel = state.add_note_now("T".to_string(), "body".to_string());
    let key = sel.expect("an empty list holds no key, so the clock key is fresh");
    assert_eq!(keys(&state), vec![key]);
    assert_eq!(state.notes[0].title, "T");
    assert_eq!(state.notes[0].content, "body");
}

#[test]
fn edit_title_changes_exactly_the_selected_entry() {
    let mut state = three_notes();
    state.edit_title(Some(2), "New".to_string());
    assert_eq!(state.notes[0], note(3, "A", "alpha"));
    assert_eq!(state.notes[1], note(2, "New", "beta"));
    assert_eq!(state.notes[2], note(1, "C", "gamma"));
}

#[test]
fn edit_content_changes_exactly_the_selected_entry() {
    let mut state = three_notes();
    state.edit_content(Some(1), "new text".to_string());
    assert_eq!(state.notes[0], note(3, "A", "alpha"));
    assert_eq!(state.notes[1], note(2, "B", "beta"));
    assert_eq!(state.notes[2], note(1, "C", "new text"));
}

#[test]
fn edit_with_no_selection_is_a_no_op() {
    let mut state = three_notes();
    state.edit_title(None, "New".to_string());
    state.edit_content(None, "New".to_string());
    assert_eq!(state, three_notes());
}

#[test]
fn edit_with_absent_selected_key_is_a_no_op() {
    let mut state = three_notes();
    state.edit_title(Some(7), "New".to_string());
    state.edit_content(Some(7), "New".to_string());
    assert_eq!(state, three_notes());
}

#[test]
fn keys_are_unique_reports_duplicates() {
    assert!(State::default().keys_are_unique());
    assert!(three_notes().keys_are_unique());
    let dup = State { notes: vec![note(3, "A", "alpha"), note(2, "B", "beta"), note(3, "C", "gamma")] };
    assert!(!dup.keys_are_unique());
}

#[test]
fn position_of_finds_each_key() {
    let state = three_notes();
    assert_eq!(state.position_of(3), Some(0));
    assert_eq!(state.position_of(2), Some(1));
    assert_eq!(state.position_of(1), Some(2));
    assert_eq!(state.position_of(7), None);
}
