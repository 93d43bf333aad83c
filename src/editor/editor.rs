//! The editor: a buffer, its undo history, and the operations on both.

use vstd::prelude::*;
use crate::editor::events::{CursorMove, InputEvent};
use crate::editor::state::{EditorState, EditorModel, RangeError, snap, spliced, range_error, clamp, typed_at_cursor};
use crate::editor::version_control::{VersionControl, keep_last};
use crate::text::{bytes_of, on_boundary};

verus! {

broadcast use vstd::utf8::encode_utf8_valid_utf8;

/// Start of the line that holds byte `c`.
pub open spec fn line_start(b: Seq<u8>, c: int) -> int
    decreases c,
{
    if c <= 0 {
        0
    } else if b[c - 1] == 10 {
        c
    } else {
        line_start(b, c - 1)
    }
}

/// End of the line that holds byte `c` (the offset of its newline, or the
/// end of the text).
pub open spec fn line_end(b: Seq<u8>, c: int) -> int
    decreases b.len() - c,
{
    if c >= b.len() {
        b.len() as int
    } else if b[c] == 10 {
        c
    } else {
        line_end(b, c + 1)
    }
}

/// The first character boundary of `t` at or after `p`.
pub open spec fn next_boundary(t: Seq<char>, p: int) -> int
    decreases bytes_of(t).len() - p,
{
    if p >= bytes_of(t).len() || on_boundary(t, p) {
        if p >= bytes_of(t).len() { bytes_of(t).len() as int } else { p }
    } else {
        next_boundary(t, p + 1)
    }
}

/// Where a cursor move asks the cursor to go. A move by a character or a
/// line lands at the start of a character; a move to a position goes there.
pub open spec fn cursor_target(s: EditorModel, m: CursorMove) -> int {
    let b = bytes_of(s.text);
    let c = s.cursor;
    match m {
        CursorMove::ToPosition(p) => p as int,
        CursorMove::Left => if c == 0 { 0 } else { snap(s.text, c - 1) },
        CursorMove::Right => if c >= b.len() { c } else { next_boundary(s.text, c + 1) },
        CursorMove::Up => {
            let start = line_start(b, c);
            if start == 0 {
                0
            } else {
                let above = line_start(b, start - 1);
                snap(s.text, above + clamp(c - start, start - 1 - above))
            }
        },
        CursorMove::Down => {
            let end = line_end(b, c);
            if end >= b.len() {
                b.len() as int
            } else {
                let below = end + 1;
                snap(s.text, below + clamp(c - line_start(b, c), line_end(b, below) - below))
            }
        },
    }
}

/// The next boundary lies in `[p, len]` and is a character boundary.
pub proof fn lemma_next_boundary(t: Seq<char>, p: int)
    requires
        0 <= p,
    ensures
        next_boundary(t, p) <= bytes_of(t).len(),
        p <= bytes_of(t).len() ==> p <= next_boundary(t, p),
        on_boundary(t, next_boundary(t, p)),
    decreases bytes_of(t).len() - p,
{
    vstd::utf8::is_char_boundary_start_end_of_seq(bytes_of(t));
    if !(p >= bytes_of(t).len() || on_boundary(t, p)) {
        lemma_next_boundary(t, p + 1);
    }
}

/// The editing buffer with its undo history.
pub struct Editor {
    pub state: EditorState,
    pub version_control: VersionControl,
}

impl Editor {
    pub open spec fn wf(&self) -> bool {
        self.state.wf() && self.version_control.wf()
    }

    /// `e1` is `e0` after `text` was inserted at the cursor and the new state
    /// recorded; with the cursor inside a character nothing changes.
    pub open spec fn inserted(e0: Editor, text: Seq<char>, e1: Editor) -> bool {
        if !on_boundary(e0.state@.text, e0.state@.cursor) {
            e1.state@ == e0.state@ && e1.version_control@ == e0.version_control@
        } else {
        &&& typed_at_cursor(e0.state@, text, e1.state@)
        &&& e1.version_control@.undo == keep_last(e0.version_control@.undo.push(e1.state@), e0.version_control@.max_history)
        &&& e1.version_control@.redo.len() == 0
        &&& e1.version_control@.max_history == e0.version_control@.max_history
        }
    }

    /// `e1` is `e0` after the bytes `[start, end)` were deleted and the new
    /// state recorded; a refused range changes nothing.
    pub open spec fn deleted(e0: Editor, start: int, end: int, e1: Editor) -> bool {
        if range_error(e0.state@.text, start, end) is Some {
            e1.state@ == e0.state@ && e1.version_control@ == e0.version_control@
        } else {
            &&& (start < end ==> bytes_of(e1.state@.text) == spliced(e0.state@.text, start, end, Seq::empty())
                && e1.state@.cursor == start && e1.state@.selection is None)
            &&& (start == end ==> e1.state@ == e0.state@)
            &&& e1.version_control@.undo == keep_last(e0.version_control@.undo.push(e1.state@), e0.version_control@.max_history)
            &&& e1.version_control@.redo.len() == 0
            &&& e1.version_control@.max_history == e0.version_control@.max_history
        }
    }

    /// `e1` is `e0` with the cursor moved as `m` asks.
    pub open spec fn moved(e0: Editor, m: CursorMove, e1: Editor) -> bool {
        &&& e1.state@.text == e0.state@.text
        &&& e1.state@.selection == e0.state@.selection
        &&& e1.state@.cursor == clamp(cursor_target(e0.state@, m), bytes_of(e0.state@.text).len() as int)
        &&& e1.version_control@ == e0.version_control@
    }

    /// `e1` is `e0` after an undo: the newest snapshot becomes the state and
    /// the state goes to the redo stack; with nothing to undo, nothing changes.
    pub open spec fn undone(e0: Editor, e1: Editor) -> bool {
        if e0.version_control@.undo.len() == 0 {
            e1.state@ == e0.state@ && e1.version_control@ == e0.version_control@
        } else {
            &&& e1.state@ == e0.version_control@.undo.last()
            &&& e1.version_control@.undo == e0.version_control@.undo.drop_last()
            &&& e1.version_control@.redo == e0.version_control@.redo.push(e0.state@)
            &&& e1.version_control@.max_history == e0.version_control@.max_history
        }
    }

    /// `e1` is `e0` after a redo, the mirror of `undone`.
    pub open spec fn redone(e0: Editor, e1: Editor) -> bool {
        if e0.version_control@.redo.len() == 0 {
            e1.state@ == e0.state@ && e1.version_control@ == e0.version_control@
        } else {
            &&& e1.state@ == e0.version_control@.redo.last()
            &&& e1.version_control@.redo == e0.version_control@.redo.drop_last()
            &&& e1.version_control@.undo == e0.version_control@.undo.push(e0.state@)
            &&& e1.version_control@.max_history == e0.version_control@.max_history
        }
    }

    /// An empty buffer with an empty history.
    pub fn new() -> (r: Self)
        ensures
            r.wf(),
            r.state@.text.len() == 0,
            r.version_control@.undo.len() == 0,
            r.version_control@.redo.len() == 0,
    {
        Self { state: EditorState::new(), version_control: VersionControl::new() }
    }

    /// Inserts `text` at the cursor and records the new state; refused
    /// while the cursor lies inside a character.
    pub fn insert_text(&mut self, text: &str) -> (r: Result<(), RangeError>)
        requires
            old(self).wf(),
            bytes_of(old(self).state@.text).len() + bytes_of(text@).len() <= usize::MAX,
        ensures
            final(self).wf(),
            Editor::inserted(*old(self), text@, *final(self)),
            r is Ok <==> on_boundary(old(self).state@.text, old(self).state@.cursor),
    {
        let r = self.state.insert_text(text);
        if r.is_ok() {
            self.version_control.track_change(&self.state);
        }
        r
    }

    /// Deletes the bytes `[start, end)` and records the new state; a range
    /// outside the text or inside a character is refused.
    pub fn delete_text(&mut self, start: usize, end: usize) -> (r: Result<(), RangeError>)
        requires
            old(self).wf(),
        ensures
            final(self).wf(),
            Editor::deleted(*old(self), start as int, end as int, *final(self)),
            r is Ok <==> range_error(old(self).state@.text, start as int, end as int) is None,
    {
        let r = self.state.delete_text(start, end);
        if r.is_ok() {
            self.version_control.track_change(&self.state);
        }
        r
    }

    /// Moves the cursor as `cursor_move` asks.
    pub fn move_cursor(&mut self, cursor_move: CursorMove)
        requires
            old(self).wf(),
        ensures
            final(self).wf(),
            Editor::moved(*old(self), cursor_move, *final(self)),
    {
        let target = target_of(&self.state, cursor_move);
        self.state.move_cursor(target);
    }

    /// Restores the newest snapshot of the undo stack.
    pub fn undo(&mut self)
        requires
            old(self).wf(),
        ensures
            final(self).wf(),
            Editor::undone(*old(self), *final(self)),
    {
        if let Some(previous_state) = self.version_control.undo(&self.state) {
            self.state = previous_state;
        }
    }

    /// Restores the newest snapshot of the redo stack.
    pub fn redo(&mut self)
        requires
            old(self).wf(),
        ensures
            final(self).wf(),
            Editor::redone(*old(self), *final(self)),
    {
        if let Some(next_state) = self.version_control.redo(&self.state) {
            self.state = next_state;
        }
    }

    /// Carries out an input event.
    pub fn handle_input_event(&mut self, input_event: InputEvent)
        requires
            old(self).wf(),
            input_event matches InputEvent::InsertText(t) ==>
                bytes_of(old(self).state@.text).len() + bytes_of(t@).len() <= usize::MAX,
        ensures
            final(self).wf(),
            input_event matches InputEvent::InsertText(t) ==> Editor::inserted(*old(self), t@, *final(self)),
            input_event matches InputEvent::DeleteText(a, b) ==> Editor::deleted(*old(self), a as int, b as int, *final(self)),
            input_event matches InputEvent::MoveCursor(m) ==> Editor::moved(*old(self), m, *final(self)),
            input_event is Undo ==> Editor::undone(*old(self), *final(self)),
            input_event is Redo ==> Editor::redone(*old(self), *final(self)),
    {
        match input_event {
            InputEvent::InsertText(text) => {
                let _ = self.insert_text(text.as_str());
            },
            InputEvent::DeleteText(start, end) => {
                let _ = self.delete_text(start, end);
            },
            InputEvent::MoveCursor(cursor_move) => {
                self.move_cursor(cursor_move);
            },
            InputEvent::Undo => {
                self.undo();
            },
            InputEvent::Redo => {
                self.redo();
            },
        }
    }

    /// The current buffer.
    pub fn get_state(&self) -> (r: &EditorState)
        ensures
            *r == self.state,
    {
        &self.state
    }
}

/// The offset `cursor_move` aims at.
pub(crate) fn target_of(state: &EditorState, cursor_move: CursorMove) -> (r: usize)
    requires
        state.wf(),
    ensures
        r == cursor_target(state@, cursor_move),
{
    let text = state.get_text();
    let b = text.as_bytes();
    let c = state.get_cursor_position();
    match cursor_move {
        CursorMove::ToPosition(p) => p,
        CursorMove::Left => if c == 0 { 0 } else { state.snap_position(c - 1) },
        CursorMove::Right => {
            if c >= b.len() {
                c
            } else {
                let mut p = c + 1;
                while p < b.len() && !text.is_char_boundary(p)
                    invariant
                        b@ == bytes_of(state@.text),
                        text@ == state@.text,
                        c < p <= b@.len(),
                        next_boundary(state@.text, c + 1) == next_boundary(state@.text, p as int),
                    decreases b@.len() - p,
                {
                    p += 1;
                }
                p
            }
        },
        CursorMove::Up => {
            let start = start_of_line(b, c);
            if start == 0 {
                0
            } else {
                let above = start_of_line(b, start - 1);
                let col = c - start;
                let width = start - 1 - above;
                state.snap_position(above + if col < width { col } else { width })
            }
        },
        CursorMove::Down => {
            let end = end_of_line(b, c);
            if end >= b.len() {
                b.len()
            } else {
                let below = end + 1;
                let col = c - start_of_line(b, c);
                let width = end_of_line(b, below) - below;
                state.snap_position(below + if col < width { col } else { width })
            }
        },
    }
}

/// Start of the line that holds byte `c`.
fn start_of_line(b: &[u8], c: usize) -> (r: usize)
    requires
        c <= b@.len(),
    ensures
        r == line_start(b@, c as int),
        r <= c,
{
    let mut i = c;
    while i > 0 && b[i - 1] != 10
        invariant
            i <= c <= b@.len(),
            line_start(b@, c as int) == line_start(b@, i as int),
        decreases i,
    {
        i -= 1;
    }
    i
}

/// End of the line that holds byte `c`.
fn end_of_line(b: &[u8], c: usize) -> (r: usize)
    requires
        c <= b@.len(),
    ensures
        r == line_end(b@, c as int),
        c <= r <= b@.len(),
{
    let mut i = c;
    while i < b.len() && b[i] != 10
        invariant
            c <= i <= b@.len(),
            line_end(b@, c as int) == line_end(b@, i as int),
        decreases b@.len() - i,
    {
        i += 1;
    }
    i
}

} // verus!
