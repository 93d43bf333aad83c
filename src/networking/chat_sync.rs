use vstd::prelude::*;

verus! {

/// A chat line with its author and time.
#[derive(Debug, Clone)]
pub struct ChatMessage {
    pub user: String,
    pub message: String,
    pub timestamp: String,
}

/// A note attached to a line of the document.
#[derive(Debug, Clone)]
pub struct Annotation {
    pub user: String,
    pub content: String,
    pub line_number: usize,
    pub timestamp: String,
}

} // verus!
