use rustpad::editor::diff_engine::{DiffEngine, DiffOperation};
use rustpad::editor::state::{EditorState, RangeError};

fn state(text: &str) -> EditorState {
    let mut s = EditorState::new();
    s.replace_text(text.to_string());
    s
}

#[test]
fn new_state_is_empty() {
    let s = EditorState::new();
    assert_eq!(s.get_text(), "");
    assert_eq!(s.get_cursor_position(), 0);
    assert_eq!(s.get_selection_range(), None);
}

#[test]
fn insert_moves_cursor_past_text() {
    let mut s = EditorState::new();
    assert_eq!(s.insert_text("hello"), Ok(()));
    assert_eq!(s.get_text(), "hello");
    assert_eq!(s.get_cursor_position(), 5);
    s.move_cursor(0);
    assert_eq!(s.insert_text(">> "), Ok(()));
    assert_eq!(s.get_text(), ">> hello");
    assert_eq!(s.get_cursor_position(), 3);
}

#[test]
fn delete_text_reports_bad_ranges() {
    let mut s = state("hello world");
    assert_eq!(s.delete_text(5, 20), Err(RangeError::OutOfBounds));
    assert_eq!(s.delete_text(6, 5), Err(RangeError::OutOfBounds));
    assert_eq!(s.get_text(), "hello world");
    assert_eq!(s.delete_text(5, 11), Ok(()));
    assert_eq!(s.get_text(), "hello");
    assert_eq!(s.get_cursor_position(), 5);
    let mut t = state("é");
    assert_eq!(t.delete_text(0, 1), Err(RangeError::SplitsCharacter));
    assert_eq!(t.get_text(), "é");
}

#[test]
fn move_cursor_clamps() {
    let mut s = state("aé");
    s.move_cursor(100);
    assert_eq!(s.get_cursor_position(), 3);
    s.move_cursor(2);
    assert_eq!(s.get_cursor_position(), 2);
    assert_eq!(s.insert_text("x"), Err(RangeError::SplitsCharacter));
    assert_eq!(s.get_text(), "aé");
    s.move_cursor(1);
    assert_eq!(s.insert_text("x"), Ok(()));
    assert_eq!(s.get_text(), "axé");
}

#[test]
fn replaying_a_diff_through_apply_sync() {
    let pairs = [("hello", "hello world"), ("hello world", "hello"), ("cat", "dog"), ("naïve", "naive"), ("", "x")];
    for (old, new) in pairs.iter() {
        let mut s = state(old);
        for op in DiffEngine::diff(old, new) {
            let r = match op {
                DiffOperation::Insert(p, t) => s.apply_sync(p, p, &t),
                DiffOperation::Delete(a, b) => s.apply_sync(a, b, ""),
                DiffOperation::Replace(a, b, t) => s.apply_sync(a, b, &t),
            };
            assert_eq!(r, Ok(()));
        }
        assert_eq!(s.get_text(), *new);
    }
}

#[test]
fn selection_is_clamped_and_ordered() {
    let mut s = state("hello");
    s.set_selection(4, 1);
    assert_eq!(s.get_selection_range(), Some((1, 4)));
    s.set_selection(2, 50);
    assert_eq!(s.get_selection_range(), Some((2, 5)));
    s.clear_selection();
    assert_eq!(s.get_selection_range(), None);
}

#[test]
fn replace_text_moves_cursor_to_end() {
    let mut s = state("abc");
    s.set_selection(0, 1);
    s.replace_text("hello".to_string());
    assert_eq!(s.get_text(), "hello");
    assert_eq!(s.get_cursor_position(), 5);
    assert_eq!(s.get_selection_range(), None);
}

#[test]
fn apply_sync_replaces_range() {
    let mut s = state("hello world");
    assert_eq!(s.apply_sync(6, 11, "there"), Ok(()));
    assert_eq!(s.get_text(), "hello there");
    assert_eq!(s.get_cursor_position(), 11);
    assert_eq!(s.apply_sync(3, 99, "x"), Err(RangeError::OutOfBounds));
    assert_eq!(s.get_text(), "hello there");
}
