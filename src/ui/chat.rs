use vstd::prelude::*;

verus! {

/// A chat line and who wrote it.
#[derive(Debug, Clone)]
pub struct ChatMessage {
    pub user: String,
    pub message: String,
}

} // verus!
