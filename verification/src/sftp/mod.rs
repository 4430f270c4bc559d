//! File listings: local directory navigation and listings of remote directories.

pub mod local;
pub mod remote;
pub mod service;
pub mod transfer;

pub use local::LocalFs;

use vstd::prelude::*;

verus! {

/// Metadata of a file or directory.
#[derive(Debug, Clone)]
pub struct FileInfo {
    /// File or directory name (without path).
    pub name: String,
    /// Whether the entry is a directory.
    pub is_dir: bool,
    /// Size in bytes (0 for directories).
    pub size: u64,
    /// Unix permission bits, when the remote side reports them.
    pub permissions: Option<u32>,
}

impl FileInfo {
    /// A copy of this entry.
    pub fn duplicate(&self) -> (r: FileInfo)
        ensures
            r == *self,
    {
        FileInfo {
            name: self.name.clone(),
            is_dir: self.is_dir,
            size: self.size,
            permissions: self.permissions,
        }
    }
}

} // verus!
