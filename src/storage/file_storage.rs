//! Where files of the project are kept on disk.

use vstd::prelude::*;

verus! {

/// What is known of one stored file.
#[derive(Debug, Clone)]
pub struct FileInfo {
    pub file_name: String,
    pub file_path: String,
    pub last_modified: String,
}

/// Files saved under one base directory.
#[derive(Debug, Clone)]
pub struct FileStorage {
    pub base_dir: String,
}

impl FileStorage {
    pub fn new(base_dir: &str) -> (r: Self)
        ensures
            r.base_dir@ == base_dir@,
    {
        Self { base_dir: base_dir.to_owned() }
    }
}

} // verus!
