//! Messages exchanged between peers: diff operations and cursor positions.

use vstd::prelude::*;
use crate::editor::diff_engine::{DiffEngine, DiffOperation, diff_spec, edits_of};
use crate::text::bytes_of;

verus! {

/// The operations that bring a peer's copy of the document up to date.
#[derive(Debug)]
pub struct SyncMessage {
    pub operations: Vec<DiffOperation>,
}

impl SyncMessage {
    pub fn new(operations: Vec<DiffOperation>) -> (r: Self)
        ensures
            r.operations == operations,
    {
        SyncMessage { operations }
    }

    /// The message that turns `prev_state` into `current_state`.
    pub fn new_from_state(prev_state: &str, current_state: &str) -> (r: Self)
        ensures
            edits_of(r.operations@) == diff_spec(bytes_of(prev_state@), bytes_of(current_state@)),
            r.operations@.len() == 0 <==> prev_state@ == current_state@,
    {
        let operations = DiffEngine::diff(prev_state, current_state);
        SyncMessage { operations }
    }
}

/// A user's cursor position, as a byte offset.
#[derive(Debug)]
pub struct CursorMessage {
    pub cursor_position: usize,
}

impl CursorMessage {
    pub fn new(cursor_position: usize) -> (r: Self)
        ensures
            r.cursor_position == cursor_position,
    {
        CursorMessage { cursor_position }
    }
}

/// Every message peers exchange.
#[derive(Debug)]
pub enum ProtocolMessage {
    Sync(SyncMessage),
    Cursor(CursorMessage),
}

} // verus!
