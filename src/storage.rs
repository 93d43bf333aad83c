pub mod checkpoint;
pub mod file_storage;
pub mod history;
pub mod theme;

use vstd::prelude::*;

verus! {

/// Where documents are kept, by identifier (a file name or a hash).
pub trait Storage {
    /// Saves `content` under `identifier`.
    fn save(&self, identifier: &str, content: &str) -> Result<(), String>;

    /// The content saved under `identifier`.
    fn load(&self, identifier: &str) -> Result<String, String>;

    /// Deletes what is saved under `identifier`.
    fn delete(&self, identifier: &str) -> Result<(), String>;
}

} // verus!
