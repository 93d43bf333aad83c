//! Keyboard input applied to the editing buffer.

use vstd::prelude::*;
use crate::editor::editor::{cursor_target, target_of};
use crate::editor::events::CursorMove;
use crate::editor::state::{EditorState, EditorModel, snap, spliced, range_error, typed_at_cursor, clamp};
use crate::text::{bytes_of, on_boundary, slice};

verus! {

/// A key or clipboard action of the user.
#[derive(Debug, Clone)]
pub enum InputEvent {
    /// A typed character (or several).
    CharacterInput(String),
    /// Delete the character before the cursor.
    Backspace,
    /// Delete the character at the cursor.
    Delete,
    CursorLeft,
    CursorRight,
    CursorUp,
    CursorDown,
    /// Insert a line break.
    Enter,
    /// Insert a tab.
    Tab,
    /// Copy the selection.
    Copy,
    /// Copy the selection and delete it.
    Cut,
    /// Insert text from the clipboard.
    Paste(String),
}

/// `s1` is `s0` with `ins` typed at the cursor; with the cursor inside a
/// character nothing changes.
pub open spec fn typed(s0: EditorModel, ins: Seq<char>, s1: EditorModel) -> bool {
    if on_boundary(s0.text, s0.cursor) {
        typed_at_cursor(s0, ins, s1)
    } else {
        s1 == s0
    }
}

/// `s1` is `s0` with the bytes `[a, b)` cut out, or `s0` itself when that
/// range does not lie on character boundaries.
pub open spec fn cut_or_keep(s0: EditorModel, a: int, b: int, s1: EditorModel) -> bool {
    if range_error(s0.text, a, b) is Some {
        s1 == s0
    } else {
        cut_out(s0, a, b, s1)
    }
}

/// `s1` is `s0` with the bytes `[a, b)` removed and the cursor at `a`; an
/// empty range changes nothing.
pub open spec fn cut_out(s0: EditorModel, a: int, b: int, s1: EditorModel) -> bool {
    if a < b {
        &&& bytes_of(s1.text) == spliced(s0.text, a, b, Seq::empty())
        &&& s1.cursor == a
        &&& s1.selection is None
    } else {
        s1 == s0
    }
}

/// `s1` is `s0` with the cursor moved as `m` asks.
pub open spec fn stepped(s0: EditorModel, m: CursorMove, s1: EditorModel) -> bool {
    &&& s1.text == s0.text
    &&& s1.selection == s0.selection
    &&& s1.cursor == clamp(cursor_target(s0, m), bytes_of(s0.text).len() as int)
}

/// The selected range of `s`, each end moved back to a character start.
pub open spec fn selected_range(s: EditorModel) -> Option<(int, int)> {
    match s.selection {
        Some((a, b)) => Some((snap(s.text, a), snap(s.text, b))),
        None => None,
    }
}

proof fn lemma_one_byte(c: char)
    requires
        (c as u32) < 0x80,
    ensures
        bytes_of(seq![c]).len() == 1,
{
    assert(seq![c].drop_first() =~= Seq::<char>::empty());
    assert(seq![c][0] == c);
    assert(vstd::utf8::encode_utf8(Seq::<char>::empty()) =~= Seq::<u8>::empty());
    assert(vstd::utf8::encode_scalar(c as u32).len() == 1);
    assert(vstd::utf8::encode_utf8(seq![c]) == vstd::utf8::encode_scalar(c as u32) + vstd::utf8::encode_utf8(Seq::<char>::empty()));
}

/// Applies key presses and clipboard actions to an `EditorState`.
pub struct InputHandler;

impl InputHandler {
    pub fn new() -> Self {
        Self {}
    }

    /// Applies `input_event` to `state`. Copy and Cut give back the selected
    /// text, for the clipboard; every other event gives back nothing.
    pub fn handle_input(&self, input_event: InputEvent, state: &mut EditorState) -> (r: Option<String>)
        requires
            old(state).wf(),
            (input_event is Enter || input_event is Tab) ==> bytes_of(old(state)@.text).len() + 1 <= usize::MAX,
            input_event matches InputEvent::CharacterInput(t) ==>
                bytes_of(old(state)@.text).len() + bytes_of(t@).len() <= usize::MAX,
            input_event matches InputEvent::Paste(t) ==>
                bytes_of(old(state)@.text).len() + bytes_of(t@).len() <= usize::MAX,
        ensures
            final(state).wf(),
            !(input_event is Copy || input_event is Cut) ==> r is None,
            input_event matches InputEvent::CharacterInput(t) ==> typed(old(state)@, t@, final(state)@),
            input_event matches InputEvent::Paste(t) ==> typed(old(state)@, t@, final(state)@),
            input_event is Enter ==> typed(old(state)@, seq!['\n'], final(state)@),
            input_event is Tab ==> typed(old(state)@, seq!['\t'], final(state)@),
            input_event is Backspace ==> (old(state)@.cursor == 0 ==> final(state)@ == old(state)@)
                && (old(state)@.cursor > 0 ==> cut_or_keep(old(state)@,
                    snap(old(state)@.text, old(state)@.cursor - 1), old(state)@.cursor, final(state)@)),
            input_event is Delete ==> cut_or_keep(old(state)@, old(state)@.cursor,
                cursor_target(old(state)@, CursorMove::Right), final(state)@),
            input_event is CursorLeft ==> stepped(old(state)@, CursorMove::Left, final(state)@),
            input_event is CursorRight ==> stepped(old(state)@, CursorMove::Right, final(state)@),
            input_event is CursorUp ==> stepped(old(state)@, CursorMove::Up, final(state)@),
            input_event is CursorDown ==> stepped(old(state)@, CursorMove::Down, final(state)@),
            input_event is Copy || input_event is Cut ==> match selected_range(old(state)@) {
                None => r is None && final(state)@ == old(state)@,
                Some((a, b)) => r matches Some(t) && a <= b
                    && bytes_of(t@) == bytes_of(old(state)@.text).subrange(a, b),
            },
            input_event is Copy ==> final(state)@ == old(state)@,
            input_event is Cut ==> (selected_range(old(state)@) matches Some((a, b)) ==>
                cut_out(old(state)@, a, b, final(state)@)),
    {
        proof {
            reveal_strlit("\n");
            reveal_strlit("\t");
            lemma_one_byte('\n');
            lemma_one_byte('\t');
            assert("\n"@ =~= seq!['\n']);
            assert("\t"@ =~= seq!['\t']);
        }
        match input_event {
            InputEvent::CharacterInput(character) => {
                let _ = state.insert_text(character.as_str());
                None
            },
            InputEvent::Paste(pasted_text) => {
                let _ = state.insert_text(pasted_text.as_str());
                None
            },
            InputEvent::Enter => {
                let _ = state.insert_text("\n");
                None
            },
            InputEvent::Tab => {
                let _ = state.insert_text("\t");
                None
            },
            InputEvent::Backspace => {
                let c = state.get_cursor_position();
                if c > 0 {
                    let p = state.snap_position(c - 1);
                    let _ = state.delete_text(p, c);
                }
                None
            },
            InputEvent::Delete => {
                let c = state.get_cursor_position();
                let e = target_of(state, CursorMove::Right);
                proof {
                    crate::editor::editor::lemma_next_boundary(state@.text, c as int + 1);
                }
                let _ = state.delete_text(c, e);
                None
            },
            InputEvent::CursorLeft => {
                let t = target_of(state, CursorMove::Left);
                state.move_cursor(t);
                None
            },
            InputEvent::CursorRight => {
                let t = target_of(state, CursorMove::Right);
                state.move_cursor(t);
                None
            },
            InputEvent::CursorUp => {
                let t = target_of(state, CursorMove::Up);
                state.move_cursor(t);
                None
            },
            InputEvent::CursorDown => {
                let t = target_of(state, CursorMove::Down);
                state.move_cursor(t);
                None
            },
            InputEvent::Copy => {
                match state.get_selection_range() {
                    Some((a, b)) => {
                        let (x, y) = (state.snap_position(a), state.snap_position(b));
                        proof {
                            crate::editor::state::lemma_snap_monotone(state@.text, a as int, b as int);
                        }
                        Some(slice(state.get_text(), x, y))
                    },
                    None => None,
                }
            },
            InputEvent::Cut => {
                match state.get_selection_range() {
                    Some((a, b)) => {
                        let (x, y) = (state.snap_position(a), state.snap_position(b));
                        proof {
                            crate::editor::state::lemma_snap_monotone(state@.text, a as int, b as int);
                        }
                        let copied = slice(state.get_text(), x, y);
                        let _ = state.delete_text(x, y);
                        Some(copied)
                    },
                    None => None,
                }
            },
        }
    }
}

} // verus!
