//! Bounded undo/redo history of editor snapshots.

use vstd::prelude::*;
use std::collections::VecDeque;
use crate::editor::state::{EditorState, EditorModel};

verus! {

/// The last `n` entries of `s` (all of them when there are fewer).
pub open spec fn keep_last<T>(s: Seq<T>, n: nat) -> Seq<T> {
    if s.len() <= n { s } else { s.subrange(s.len() - n, s.len() as int) }
}

/// What a `VersionControl` holds: both stacks, oldest entry first, and the
/// cap on the undo stack.
pub struct HistoryModel {
    pub undo: Seq<EditorModel>,
    pub redo: Seq<EditorModel>,
    pub max_history: nat,
}

pub open spec fn models(s: Seq<EditorState>) -> Seq<EditorModel> {
    s.map_values(|e: EditorState| e@)
}

/// Undo and redo stacks of snapshots, the undo stack capped at
/// `max_history` entries.
pub struct VersionControl {
    undo_stack: VecDeque<EditorState>,
    redo_stack: VecDeque<EditorState>,
    max_history: usize,
}

impl View for VersionControl {
    type V = HistoryModel;

    closed spec fn view(&self) -> HistoryModel {
        HistoryModel {
            undo: models(self.undo_stack@),
            redo: models(self.redo_stack@),
            max_history: self.max_history as nat,
        }
    }
}

impl VersionControl {
    /// Every snapshot held is a well-formed state.
    pub closed spec fn wf(&self) -> bool {
        &&& forall|i: int| 0 <= i < self.undo_stack@.len() ==> (#[trigger] self.undo_stack@[i]).wf()
        &&& forall|i: int| 0 <= i < self.redo_stack@.len() ==> (#[trigger] self.redo_stack@[i]).wf()
    }

    /// Empty history with room for 100 undo steps.
    pub fn new() -> (r: Self)
        ensures
            r.wf(),
            r@.undo == Seq::<EditorModel>::empty(),
            r@.redo == Seq::<EditorModel>::empty(),
            r@.max_history == 100,
    {
        let r = Self { undo_stack: VecDeque::new(), redo_stack: VecDeque::new(), max_history: 100 };
        proof {
            assert(models(r.undo_stack@) =~= Seq::<EditorModel>::empty());
            assert(models(r.redo_stack@) =~= Seq::<EditorModel>::empty());
        }
        r
    }

    /// Records `state` on the undo stack, dropping the oldest entries beyond
    /// the cap, and forgets everything that could be redone.
    pub fn track_change(&mut self, state: &EditorState)
        requires
            old(self).wf(),
            state.wf(),
        ensures
            final(self).wf(),
            final(self)@.undo == keep_last(old(self)@.undo.push(state@), old(self)@.max_history),
            final(self)@.redo == Seq::<EditorModel>::empty(),
            final(self)@.max_history == old(self)@.max_history,
    {
        let ghost before = self.undo_stack@.push(*state);
        self.undo_stack.push_back(state.snapshot());
        proof {
            assert(models(self.undo_stack@) =~= models(before));
        }
        while self.undo_stack.len() > self.max_history
            invariant
                self.max_history == old(self).max_history,
                self.redo_stack == old(self).redo_stack,
                keep_last(models(self.undo_stack@), self.max_history as nat)
                    == keep_last(old(self)@.undo.push(state@), old(self)@.max_history),
                forall|i: int| 0 <= i < self.undo_stack@.len() ==> (#[trigger] self.undo_stack@[i]).wf(),
            decreases self.undo_stack@.len(),
        {
            let ghost prev = self.undo_stack@;
            let _ = self.undo_stack.pop_front();
            proof {
                assert(models(self.undo_stack@) =~= models(prev).subrange(1, prev.len() as int));
                assert(keep_last(models(self.undo_stack@), self.max_history as nat)
                    =~= keep_last(models(prev), self.max_history as nat));
            }
        }
        self.redo_stack.clear();
        proof {
            assert(models(self.redo_stack@) =~= Seq::<EditorModel>::empty());
        }
    }

    /// Takes the newest snapshot off the undo stack, saving `current_state`
    /// for redo; `None`, with nothing changed, when there is nothing to undo.
    pub fn undo(&mut self, current_state: &EditorState) -> (r: Option<EditorState>)
        requires
            old(self).wf(),
            current_state.wf(),
        ensures
            final(self).wf(),
            final(self)@.max_history == old(self)@.max_history,
            old(self)@.undo.len() == 0 ==> r is None && final(self)@ == old(self)@,
            old(self)@.undo.len() > 0 ==> (r matches Some(s) && s.wf()
                && s@ == old(self)@.undo.last()
                && final(self)@.undo == old(self)@.undo.drop_last()
                && final(self)@.redo == old(self)@.redo.push(current_state@)),
    {
        let ghost u0 = self.undo_stack@;
        let ghost r0 = self.redo_stack@;
        if let Some(previous_state) = self.undo_stack.pop_back() {
            self.redo_stack.push_back(current_state.snapshot());
            proof {
                assert(models(self.undo_stack@) =~= models(u0).drop_last());
                assert(models(self.redo_stack@) =~= models(r0).push(current_state@));
            }
            return Some(previous_state);
        }
        None
    }

    /// Takes the newest snapshot off the redo stack, putting `current_state`
    /// back on the undo stack; `None`, with nothing changed, when there is
    /// nothing to redo.
    pub fn redo(&mut self, current_state: &EditorState) -> (r: Option<EditorState>)
        requires
            old(self).wf(),
            current_state.wf(),
        ensures
            final(self).wf(),
            final(self)@.max_history == old(self)@.max_history,
            old(self)@.redo.len() == 0 ==> r is None && final(self)@ == old(self)@,
            old(self)@.redo.len() > 0 ==> (r matches Some(s) && s.wf()
                && s@ == old(self)@.redo.last()
                && final(self)@.redo == old(self)@.redo.drop_last()
                && final(self)@.undo == old(self)@.undo.push(current_state@)),
    {
        let ghost u0 = self.undo_stack@;
        let ghost r0 = self.redo_stack@;
        if let Some(next_state) = self.redo_stack.pop_back() {
            self.undo_stack.push_back(current_state.snapshot());
            proof {
                assert(models(self.redo_stack@) =~= models(r0).drop_last());
                assert(models(self.undo_stack@) =~= models(u0).push(current_state@));
            }
            return Some(next_state);
        }
        None
    }

    /// Sets the cap on the undo stack; it applies from the next tracked change.
    pub fn set_max_history(&mut self, max_history: usize)
        requires
            old(self).wf(),
        ensures
            final(self).wf(),
            final(self)@.undo == old(self)@.undo,
            final(self)@.redo == old(self)@.redo,
            final(self)@.max_history == max_history,
    {
        self.max_history = max_history;
    }

    /// Forgets both stacks.
    pub fn clear_history(&mut self)
        requires
            old(self).wf(),
        ensures
            final(self).wf(),
            final(self)@.undo == Seq::<EditorModel>::empty(),
            final(self)@.redo == Seq::<EditorModel>::empty(),
            final(self)@.max_history == old(self)@.max_history,
    {
        self.undo_stack.clear();
        self.redo_stack.clear();
        proof {
            assert(models(self.undo_stack@) =~= Seq::<EditorModel>::empty());
            assert(models(self.redo_stack@) =~= Seq::<EditorModel>::empty());
        }
    }
}

/// Redo gives back what undo took: after an undo that returned a snapshot,
/// a redo from that snapshot returns the state the undo started from and
/// leaves both stacks as they were before the undo.
pub proof fn lemma_redo_reverses_undo(h0: HistoryModel, current: EditorModel, h1: HistoryModel, popped: EditorModel, h2: HistoryModel, restored: EditorModel)
    requires
        h0.undo.len() > 0,
        popped == h0.undo.last(),
        h1.undo == h0.undo.drop_last(),
        h1.redo == h0.redo.push(current),
        h1.redo.len() > 0,
        restored == h1.redo.last(),
        h2.redo == h1.redo.drop_last(),
        h2.undo == h1.undo.push(popped),
    ensures
        restored == current,
        h2.undo == h0.undo,
        h2.redo == h0.redo,
{
    assert(h2.undo =~= h0.undo);
    assert(h2.redo =~= h0.redo);
}

/// Under a cap of `n >= 1`, after a change is tracked the undo stack holds at
/// most `n` snapshots, the new one on top, and the oldest of `n + 1` tracked
/// snapshots is gone.
pub proof fn lemma_history_cap(undo: Seq<EditorModel>, state: EditorModel, n: nat)
    requires
        n >= 1,
        undo.len() <= n,
    ensures
        keep_last(undo.push(state), n).len() <= n,
        keep_last(undo.push(state), n).last() == state,
        undo.len() == n ==> keep_last(undo.push(state), n) == undo.subrange(1, undo.len() as int).push(state),
{
    if undo.len() == n {
        assert(keep_last(undo.push(state), n) =~= undo.subrange(1, undo.len() as int).push(state));
    }
}

} // verus!
