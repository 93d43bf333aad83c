//! The local editing buffer: text, cursor and selection.

use vstd::prelude::*;
use vstd::utf8::*;
use vstd::string::*;
use crate::text::{bytes_of, on_boundary, splice, lemma_bytes_injective};
use crate::editor::diff_engine::{Edit, diff_spec, edit_parts, apply_edits, lemma_diff_round_trip};

verus! {

broadcast use vstd::utf8::encode_utf8_valid_utf8;

/// Why a byte range cannot be applied to the text.
#[derive(Debug, Clone, Copy, PartialEq, Eq)]
pub enum RangeError {
    /// `start > end`, or `end` lies past the end of the text.
    OutOfBounds,
    /// One end of the range falls inside a character.
    SplitsCharacter,
}

/// What an `EditorState` holds: the text, the cursor as a byte offset, and
/// the selected byte range if there is one.
pub struct EditorModel {
    pub text: Seq<char>,
    pub cursor: int,
    pub selection: Option<(int, int)>,
}

impl EditorModel {
    /// The cursor and the selection lie within the text, the selection in
    /// order.
    pub open spec fn valid(self) -> bool {
        &&& 0 <= self.cursor <= bytes_of(self.text).len()
        &&& (self.selection matches Some((a, b)) ==> 0 <= a <= b <= bytes_of(self.text).len())
    }
}

/// The range `[start, end)` of `t`, checked against its length and its
/// character boundaries.
pub open spec fn range_error(t: Seq<char>, start: int, end: int) -> Option<RangeError> {
    if !(start <= end <= bytes_of(t).len()) {
        Some(RangeError::OutOfBounds)
    } else if !(on_boundary(t, start) && on_boundary(t, end)) {
        Some(RangeError::SplitsCharacter)
    } else {
        None
    }
}

/// The text with the bytes `[start, end)` replaced by `ins`.
pub open spec fn spliced(t: Seq<char>, start: int, end: int, ins: Seq<char>) -> Seq<u8> {
    bytes_of(t).subrange(0, start) + bytes_of(ins) + bytes_of(t).subrange(end, bytes_of(t).len() as int)
}

/// The text of a document being edited, with its cursor and selection.
#[derive(Clone, Debug)]
pub struct EditorState {
    text: String,
    cursor_position: usize,
    selection_start: Option<usize>,
    selection_end: Option<usize>,
}

impl View for EditorState {
    type V = EditorModel;

    closed spec fn view(&self) -> EditorModel {
        EditorModel {
            text: self.text@,
            cursor: self.cursor_position as int,
            selection: match (self.selection_start, self.selection_end) {
                (Some(a), Some(b)) => Some((a as int, b as int)),
                _ => None,
            },
        }
    }
}

impl EditorState {
    pub open spec fn wf(&self) -> bool {
        self@.valid()
    }

    /// An empty document with the cursor at its start and nothing selected.
    pub fn new() -> (r: Self)
        ensures
            r.wf(),
            r@.text == Seq::<char>::empty(),
            r@.cursor == 0,
            r@.selection is None,
    {
        let r = Self {
            text: String::new(),
            cursor_position: 0,
            selection_start: None,
            selection_end: None,
        };
        r
    }

    /// A copy of this state.
    pub fn snapshot(&self) -> (r: Self)
        ensures
            r@ == self@,
    {
        Self {
            text: self.text.clone(),
            cursor_position: self.cursor_position,
            selection_start: self.selection_start,
            selection_end: self.selection_end,
        }
    }

    /// The whole text.
    pub fn get_text(&self) -> (r: &str)
        ensures
            r@ == self@.text,
    {
        self.text.as_str()
    }

    /// Inserts `text` at the cursor and moves the cursor past it. Refused,
    /// changing nothing, while the cursor lies inside a character.
    pub fn insert_text(&mut self, text: &str) -> (r: Result<(), RangeError>)
        requires
            old(self).wf(),
            bytes_of(old(self)@.text).len() + bytes_of(text@).len() <= usize::MAX,
        ensures
            final(self).wf(),
            r is Err <==> !on_boundary(old(self)@.text, old(self)@.cursor),
            r matches Err(e) ==> e == RangeError::SplitsCharacter && final(self)@ == old(self)@,
            r is Ok ==> typed_at_cursor(old(self)@, text@, final(self)@),
    {
        let c = self.cursor_position;
        if !self.text.as_str().is_char_boundary(c) {
            return Err(RangeError::SplitsCharacter);
        }
        let t = splice(self.text.as_str(), c, c, text);
        let n = text.as_bytes().len();
        self.text = t;
        self.cursor_position = c + n;
        Ok(())
    }

    /// Deletes the bytes `[start, end)`, puts the cursor at `start` and
    /// clears the selection; an empty range changes nothing. A range outside
    /// the text, or one that cuts a character, is refused.
    pub fn delete_text(&mut self, start: usize, end: usize) -> (r: Result<(), RangeError>)
        requires
            old(self).wf(),
        ensures
            final(self).wf(),
            r matches Err(e) ==> range_error(old(self)@.text, start as int, end as int) == Some(e)
                && final(self)@ == old(self)@,
            r is Ok ==> range_error(old(self)@.text, start as int, end as int) is None,
            r is Ok && start < end ==> bytes_of(final(self)@.text) == spliced(old(self)@.text, start as int, end as int, Seq::empty())
                && final(self)@.cursor == start && final(self)@.selection is None,
            r is Ok && start == end ==> final(self)@ == old(self)@,
    {
        match self.check_range(start, end) {
            Err(e) => Err(e),
            Ok(()) => {
                if start < end {
                    proof {
                        reveal_strlit("");
                        assert(bytes_of(""@) =~= Seq::<u8>::empty());
                    }
                    let t = splice(self.text.as_str(), start, end, "");
                    self.text = t;
                    self.cursor_position = start;
                    self.selection_start = None;
                    self.selection_end = None;
                }
                Ok(())
            }
        }
    }

    /// Whether `[start, end)` can be cut out of the text.
    fn check_range(&self, start: usize, end: usize) -> (r: Result<(), RangeError>)
        ensures
            r matches Err(e) ==> range_error(self@.text, start as int, end as int) == Some(e),
            r is Ok ==> range_error(self@.text, start as int, end as int) is None,
    {
        let s = self.text.as_str();
        if !(start <= end && end <= s.as_bytes().len()) {
            Err(RangeError::OutOfBounds)
        } else if !(s.is_char_boundary(start) && s.is_char_boundary(end)) {
            Err(RangeError::SplitsCharacter)
        } else {
            Ok(())
        }
    }

    /// Moves the cursor to `position`, clamped to the end of the text.
    pub fn move_cursor(&mut self, position: usize)
        requires
            old(self).wf(),
        ensures
            final(self).wf(),
            final(self)@.text == old(self)@.text,
            final(self)@.selection == old(self)@.selection,
            final(self)@.cursor == clamp(position as int, bytes_of(old(self)@.text).len() as int),
    {
        let len = self.text.as_str().as_bytes().len();
        self.cursor_position = if position < len { position } else { len };
    }

    /// Where a cursor asked for at `position` lands: clamped to the end of
    /// the text and moved back to the start of its character.
    pub fn snap_position(&self, position: usize) -> (r: usize)
        ensures
            r == snap(self@.text, position as int),
            r <= bytes_of(self@.text).len(),
            on_boundary(self@.text, r as int),
    {
        let s = self.text.as_str();
        let len = s.as_bytes().len();
        let mut p = if position < len { position } else { len };
        proof {
            vstd::utf8::is_char_boundary_start_end_of_seq(bytes_of(self.text@));
        }
        while p > 0 && !s.is_char_boundary(p)
            invariant
                s@ == self.text@,
                p <= len,
                len == bytes_of(self.text@).len(),
                snap(self.text@, position as int) == back_to_boundary(self.text@, p as int),
            decreases p,
        {
            p -= 1;
        }
        p
    }

    /// Selects the bytes between `start` and `end`, each clamped to the end of
    /// the text, in increasing order.
    pub fn set_selection(&mut self, start: usize, end: usize)
        requires
            old(self).wf(),
        ensures
            final(self).wf(),
            final(self)@.text == old(self)@.text,
            final(self)@.cursor == old(self)@.cursor,
            final(self)@.selection == Some(ordered(
                clamp(start as int, bytes_of(old(self)@.text).len() as int),
                clamp(end as int, bytes_of(old(self)@.text).len() as int),
            )),
    {
        let len = self.text.as_str().as_bytes().len();
        let a = if start < len { start } else { len };
        let b = if end < len { end } else { len };
        if a <= b {
            self.selection_start = Some(a);
            self.selection_end = Some(b);
        } else {
            self.selection_start = Some(b);
            self.selection_end = Some(a);
        }
    }

    /// Drops the selection.
    pub fn clear_selection(&mut self)
        requires
            old(self).wf(),
        ensures
            final(self).wf(),
            final(self)@.text == old(self)@.text,
            final(self)@.cursor == old(self)@.cursor,
            final(self)@.selection is None,
    {
        self.selection_start = None;
        self.selection_end = None;
    }

    /// The cursor's byte offset.
    pub fn get_cursor_position(&self) -> (r: usize)
        ensures
            r == self@.cursor,
    {
        self.cursor_position
    }

    /// The selected range, if any.
    pub fn get_selection_range(&self) -> (r: Option<(usize, usize)>)
        ensures
            r matches Some((a, b)) ==> self@.selection == Some((a as int, b as int)),
            r is None ==> self@.selection is None,
    {
        if let (Some(start), Some(end)) = (self.selection_start, self.selection_end) {
            Some((start, end))
        } else {
            None
        }
    }

    /// Replaces the whole text; the cursor goes to its end and the selection
    /// is dropped.
    pub fn replace_text(&mut self, new_text: String)
        requires
            old(self).wf(),
        ensures
            final(self).wf(),
            final(self)@.text == new_text@,
            final(self)@.cursor == bytes_of(new_text@).len(),
            final(self)@.selection is None,
    {
        self.text = new_text;
        self.cursor_position = self.text.as_str().as_bytes().len();
        self.selection_start = None;
        self.selection_end = None;
    }

    /// Replaces the bytes `[start, end)` by `new_text`, as an incoming
    /// synchronisation asks; the cursor goes just past the new text and the
    /// selection is dropped. A range outside the text, or one that cuts a
    /// character, is refused and changes nothing.
    pub fn apply_sync(&mut self, start: usize, end: usize, new_text: &str) -> (r: Result<(), RangeError>)
        requires
            old(self).wf(),
            bytes_of(old(self)@.text).len() + bytes_of(new_text@).len() <= usize::MAX,
        ensures
            final(self).wf(),
            r matches Err(e) ==> range_error(old(self)@.text, start as int, end as int) == Some(e)
                && final(self)@ == old(self)@,
            r is Ok ==> range_error(old(self)@.text, start as int, end as int) is None
                && bytes_of(final(self)@.text) == spliced(old(self)@.text, start as int, end as int, new_text@)
                && final(self)@.cursor == start + bytes_of(new_text@).len()
                && final(self)@.selection is None,
    {
        match self.check_range(start, end) {
            Err(e) => Err(e),
            Ok(()) => {
                let t = splice(self.text.as_str(), start, end, new_text);
                let n = new_text.as_bytes().len();
                self.text = t;
                self.cursor_position = start + n;
                self.selection_start = None;
                self.selection_end = None;
                Ok(())
            }
        }
    }
}

/// `s1` is `s0` with `ins` inserted at the cursor, the cursor just past it
/// and the selection kept.
pub open spec fn typed_at_cursor(s0: EditorModel, ins: Seq<char>, s1: EditorModel) -> bool {
    &&& bytes_of(s1.text) == spliced(s0.text, s0.cursor, s0.cursor, ins)
    &&& s1.cursor == s0.cursor + bytes_of(ins).len()
    &&& s1.selection == s0.selection
}

/// `x` clamped to `hi`.
pub open spec fn clamp(x: int, hi: int) -> int {
    if x < hi { x } else { hi }
}

/// The pair in increasing order.
pub open spec fn ordered(a: int, b: int) -> (int, int) {
    if a <= b { (a, b) } else { (b, a) }
}

/// The largest character boundary of `t` at or below `p`.
pub open spec fn back_to_boundary(t: Seq<char>, p: int) -> int
    decreases p,
{
    if p <= 0 || on_boundary(t, p) { if p <= 0 { 0 } else { p } } else { back_to_boundary(t, p - 1) }
}

/// Where a cursor asked for at `position` lands in `t`.
pub open spec fn snap(t: Seq<char>, position: int) -> int {
    back_to_boundary(t, clamp(position, bytes_of(t).len() as int))
}

proof fn lemma_back_to_boundary_below(t: Seq<char>, p: int)
    ensures
        0 <= back_to_boundary(t, p),
        0 <= p ==> back_to_boundary(t, p) <= p,
    decreases p,
{
    if p > 0 && !on_boundary(t, p) {
        lemma_back_to_boundary_below(t, p - 1);
    }
}

proof fn lemma_back_to_boundary_monotone(t: Seq<char>, a: int, b: int)
    requires
        0 <= a <= b,
    ensures
        back_to_boundary(t, a) <= back_to_boundary(t, b),
    decreases b - a,
{
    lemma_back_to_boundary_below(t, a);
    if a < b {
        if !on_boundary(t, b) {
            lemma_back_to_boundary_monotone(t, a, b - 1);
        }
    }
}

/// Fitting positions to the text keeps their order.
pub proof fn lemma_snap_monotone(t: Seq<char>, a: int, b: int)
    requires
        0 <= a <= b,
    ensures
        snap(t, a) <= snap(t, b),
{
    lemma_back_to_boundary_monotone(t, clamp(a, bytes_of(t).len() as int), clamp(b, bytes_of(t).len() as int));
}

/// Replaying the diff of two texts through `apply_sync` on a state that
/// holds the first text gives the second: the diff's one edit, applied as
/// the range it replaces and the text it puts there, yields the new text.
pub proof fn lemma_sync_replays_diff(old: Seq<char>, new: Seq<char>, e: Edit, ins: Seq<char>, result: Seq<char>)
    requires
        diff_spec(bytes_of(old), bytes_of(new)) == seq![e],
        edit_parts(e).2 == bytes_of(ins),
        bytes_of(result) == spliced(old, edit_parts(e).0, edit_parts(e).1, ins),
    ensures
        result == new,
{
    lemma_diff_round_trip(old, new);
    let es = seq![e];
    assert(es.drop_first() =~= Seq::<Edit>::empty());
    assert(es[0] == e);
    let t = bytes_of(old);
    let (a, b, x) = edit_parts(e);
    let u = t.subrange(0, a) + x + t.subrange(b, t.len() as int);
    assert(crate::editor::diff_engine::apply_edit(t, e) == Some(u));
    assert(apply_edits(u, es.drop_first()) == Some(u));
    assert(u == bytes_of(new));
    assert(u == spliced(old, a, b, ins));
    lemma_bytes_injective(result, new);
}

} // verus!
