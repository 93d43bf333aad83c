//! The file tree of the project sidebar.

use vstd::prelude::*;

verus! {

/// A file or a folder of the tree; a folder lists its children.
#[derive(Debug)]
pub struct FileNode {
    pub name: String,
    pub path: String,
    pub is_directory: bool,
    pub children: Option<Vec<FileNode>>,
}

/// The tree under one base directory.
#[derive(Debug, Clone)]
pub struct FileManager {
    pub base_dir: String,
}

impl FileManager {
    pub fn new(base_dir: &str) -> (r: Self)
        ensures
            r.base_dir@ == base_dir@,
    {
        Self { base_dir: base_dir.to_owned() }
    }
}

} // verus!
