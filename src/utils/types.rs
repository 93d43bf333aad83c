//! Small shared types.

use vstd::prelude::*;

verus! {

/// Whether the document has unsaved changes.
#[derive(Debug, Clone, Copy, PartialEq, Eq, Structural)]
pub enum DocumentState {
    Unsaved,
    Saved,
    Modified,
}

/// The outcome of an operation, with a message for the user.
#[derive(Debug, Clone)]
pub struct OperationResponse {
    pub success: bool,
    pub message: String,
}

impl OperationResponse {
    /// A successful outcome.
    pub fn success(message: &str) -> (r: Self)
        ensures
            r.success,
            r.message@ == message@,
    {
        Self { success: true, message: message.to_owned() }
    }

    /// A failed outcome.
    pub fn failure(message: &str) -> (r: Self)
        ensures
            !r.success,
            r.message@ == message@,
    {
        Self { success: false, message: message.to_owned() }
    }
}

} // verus!
