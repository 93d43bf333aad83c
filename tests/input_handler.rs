use rustpad::editor::state::EditorState;
use rustpad::ui::input_handler::{InputEvent, InputHandler};

#[test]
fn typing_and_deleting_characters() {
    let h = InputHandler::new();
    let mut s = EditorState::new();
    assert!(h.handle_input(InputEvent::CharacterInput("hé".to_string()), &mut s).is_none());
    h.handle_input(InputEvent::Tab, &mut s);
    h.handle_input(InputEvent::Enter, &mut s);
    h.handle_input(InputEvent::Paste("x".to_string()), &mut s);
    assert_eq!(s.get_text(), "hé\t\nx");
    h.handle_input(InputEvent::Backspace, &mut s);
    h.handle_input(InputEvent::Backspace, &mut s);
    h.handle_input(InputEvent::Backspace, &mut s);
    assert_eq!(s.get_text(), "hé");
    h.handle_input(InputEvent::Backspace, &mut s);
    assert_eq!(s.get_text(), "h");
    h.handle_input(InputEvent::CursorLeft, &mut s);
    assert_eq!(s.get_cursor_position(), 0);
    h.handle_input(InputEvent::Backspace, &mut s);
    assert_eq!(s.get_text(), "h");
    h.handle_input(InputEvent::Delete, &mut s);
    assert_eq!(s.get_text(), "");
}

#[test]
fn clipboard_actions() {
    let h = InputHandler::new();
    let mut s = EditorState::new();
    s.replace_text("hello world".to_string());
    assert!(h.handle_input(InputEvent::Copy, &mut s).is_none());
    s.set_selection(0, 5);
    assert_eq!(h.handle_input(InputEvent::Copy, &mut s), Some("hello".to_string()));
    assert_eq!(s.get_text(), "hello world");
    assert_eq!(h.handle_input(InputEvent::Cut, &mut s), Some("hello".to_string()));
    assert_eq!(s.get_text(), " world");
    assert_eq!(s.get_cursor_position(), 0);
}

#[test]
fn vertical_cursor_moves() {
    let h = InputHandler::new();
    let mut s = EditorState::new();
    s.replace_text("abc\nde".to_string());
    h.handle_input(InputEvent::CursorUp, &mut s);
    assert_eq!(s.get_cursor_position(), 2);
    h.handle_input(InputEvent::CursorRight, &mut s);
    assert_eq!(s.get_cursor_position(), 3);
    h.handle_input(InputEvent::CursorDown, &mut s);
    assert_eq!(s.get_cursor_position(), 6);
}
