//! Plain value types carried across the file boundary: a file's text, its
//! metadata, and a package's identity. Reading the files is the caller's
//! work.

use vstd::prelude::*;

verus! {

/// A file's path and its full text.
pub struct FileContent {
    pub path: String,
    pub content: String,
}

/// What the filesystem reports about one file.
pub struct FileMetadata {
    pub path: String,
    pub name: String,
    pub size: u64,
    pub modified: u64,
    pub created: u64,
    pub is_dir: bool,
}

/// One installed package's identity.
pub struct PackageInfo {
    pub name: String,
    pub version: String,
    pub description: Option<String>,
}

} // verus!
