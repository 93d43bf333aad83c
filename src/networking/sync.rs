use vstd::prelude::*;

verus! {

/// New content of a file, by a user.
#[derive(Debug, Clone)]
pub struct FileChange {
    pub file_name: String,
    pub content: String,
    pub user: String,
    pub timestamp: String,
}

} // verus!
