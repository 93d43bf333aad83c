use rustpad::editor::state::EditorState;
use rustpad::editor::version_control::VersionControl;

fn state(text: &str) -> EditorState {
    let mut s = EditorState::new();
    s.replace_text(text.to_string());
    s
}

#[test]
fn undo_redo_stack_discipline() {
    let mut vc = VersionControl::new();
    vc.track_change(&state("a"));
    vc.track_change(&state("ab"));
    vc.track_change(&state("abc"));
    let current = state("abc");
    let first = vc.undo(&current).unwrap();
    assert_eq!(first.get_text(), "abc");
    let second = vc.undo(&first).unwrap();
    assert_eq!(second.get_text(), "ab");
    let again = vc.redo(&second).unwrap();
    assert_eq!(again.get_text(), "abc");
    let back = vc.undo(&again).unwrap();
    assert_eq!(back.get_text(), "ab");
}

#[test]
fn undo_on_empty_history_returns_none() {
    let mut vc = VersionControl::new();
    let current = state("x");
    assert!(vc.undo(&current).is_none());
    assert!(vc.redo(&current).is_none());
    vc.track_change(&state("y"));
    assert_eq!(vc.undo(&current).unwrap().get_text(), "y");
    assert!(vc.undo(&current).is_none());
}

#[test]
fn history_cap_evicts_oldest() {
    let mut vc = VersionControl::new();
    vc.set_max_history(2);
    vc.track_change(&state("one"));
    vc.track_change(&state("two"));
    vc.track_change(&state("three"));
    let current = state("three");
    assert_eq!(vc.undo(&current).unwrap().get_text(), "three");
    assert_eq!(vc.undo(&current).unwrap().get_text(), "two");
    assert!(vc.undo(&current).is_none());
}

#[test]
fn new_change_clears_redo() {
    let mut vc = VersionControl::new();
    vc.track_change(&state("a"));
    let current = state("b");
    assert!(vc.undo(&current).is_some());
    vc.track_change(&state("c"));
    assert!(vc.redo(&current).is_none());
}

#[test]
fn clear_history_forgets_both_stacks() {
    let mut vc = VersionControl::new();
    vc.track_change(&state("a"));
    vc.track_change(&state("b"));
    let current = state("b");
    assert!(vc.undo(&current).is_some());
    vc.clear_history();
    assert!(vc.undo(&current).is_none());
    assert!(vc.redo(&current).is_none());
}
