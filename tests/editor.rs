use rustpad::editor::editor::Editor;
use rustpad::editor::events::{CursorMove, EventHandler, InputEvent};

#[test]
fn editing_and_undo() {
    let mut ed = Editor::new();
    ed.insert_text("a").unwrap();
    ed.insert_text("b").unwrap();
    ed.insert_text("c").unwrap();
    assert_eq!(ed.get_state().get_text(), "abc");
    ed.undo();
    ed.undo();
    assert_eq!(ed.get_state().get_text(), "ab");
    ed.redo();
    assert_eq!(ed.get_state().get_text(), "abc");
}

#[test]
fn cursor_moves() {
    let mut ed = Editor::new();
    ed.insert_text("ab\ncdef\ng").unwrap();
    ed.move_cursor(CursorMove::ToPosition(5));
    assert_eq!(ed.get_state().get_cursor_position(), 5);
    ed.move_cursor(CursorMove::Up);
    assert_eq!(ed.get_state().get_cursor_position(), 2);
    ed.move_cursor(CursorMove::Down);
    assert_eq!(ed.get_state().get_cursor_position(), 5);
    ed.move_cursor(CursorMove::Down);
    assert_eq!(ed.get_state().get_cursor_position(), 9);
    ed.move_cursor(CursorMove::Left);
    assert_eq!(ed.get_state().get_cursor_position(), 8);
    ed.move_cursor(CursorMove::Right);
    assert_eq!(ed.get_state().get_cursor_position(), 9);
    ed.move_cursor(CursorMove::Right);
    assert_eq!(ed.get_state().get_cursor_position(), 9);
}

#[test]
fn events_are_dispatched() {
    let handler = EventHandler::new();
    assert!(handler.poll_events().is_empty());
    let mut ed = Editor::new();
    handler.handle_event(InputEvent::InsertText("héllo".to_string()), &mut ed);
    handler.handle_event(InputEvent::MoveCursor(CursorMove::Left), &mut ed);
    assert_eq!(ed.get_state().get_cursor_position(), 5);
    handler.handle_event(InputEvent::MoveCursor(CursorMove::ToPosition(2)), &mut ed);
    assert_eq!(ed.get_state().get_cursor_position(), 2);
    handler.handle_event(InputEvent::InsertText("x".to_string()), &mut ed);
    assert_eq!(ed.get_state().get_text(), "héllo");
    handler.handle_event(InputEvent::MoveCursor(CursorMove::Left), &mut ed);
    assert_eq!(ed.get_state().get_cursor_position(), 1);
    handler.handle_event(InputEvent::DeleteText(1, 3), &mut ed);
    assert_eq!(ed.get_state().get_text(), "hllo");
    handler.handle_event(InputEvent::Undo, &mut ed);
    handler.handle_event(InputEvent::Undo, &mut ed);
    assert_eq!(ed.get_state().get_text(), "héllo");
    handler.handle_event(InputEvent::Redo, &mut ed);
    assert_eq!(ed.get_state().get_text(), "hllo");
}
