//! Input events of the editor and their dispatch.

use vstd::prelude::*;
use crate::editor::editor::Editor;
use crate::text::bytes_of;

verus! {

/// What the user asked the editor to do.
#[derive(Debug, Clone)]
pub enum InputEvent {
    /// Insert text at the cursor.
    InsertText(String),
    /// Delete the bytes `[start, end)`.
    DeleteText(usize, usize),
    /// Move the cursor.
    MoveCursor(CursorMove),
    /// Undo the last change.
    Undo,
    /// Redo the last undone change.
    Redo,
}

/// How the cursor moves.
#[derive(Debug, Clone, Copy)]
pub enum CursorMove {
    /// To the same column of the line above, or the start of the text.
    Up,
    /// To the same column of the line below, or the end of the text.
    Down,
    /// One character back.
    Left,
    /// One character forward.
    Right,
    /// To a byte offset.
    ToPosition(usize),
}

/// Hands input events to the editor.
pub struct EventHandler;

impl EventHandler {
    pub fn new() -> Self {
        Self {}
    }

    /// Input waiting to be handled; input reaches this editor through its
    /// callers, so there never is any here.
    pub fn poll_events(&self) -> (r: Vec<InputEvent>)
        ensures
            r@.len() == 0,
    {
        Vec::new()
    }

    /// Dispatches `event` to the editor operation it names.
    pub fn handle_event(&self, event: InputEvent, editor: &mut Editor)
        requires
            old(editor).wf(),
            event matches InputEvent::InsertText(t) ==>
                bytes_of(old(editor).state@.text).len() + bytes_of(t@).len() <= usize::MAX,
        ensures
            final(editor).wf(),
            event matches InputEvent::InsertText(t) ==> Editor::inserted(*old(editor), t@, *final(editor)),
            event matches InputEvent::DeleteText(a, b) ==> Editor::deleted(*old(editor), a as int, b as int, *final(editor)),
            event matches InputEvent::MoveCursor(m) ==> Editor::moved(*old(editor), m, *final(editor)),
            event is Undo ==> Editor::undone(*old(editor), *final(editor)),
            event is Redo ==> Editor::redone(*old(editor), *final(editor)),
    {
        editor.handle_input_event(event);
    }
}

} // verus!
