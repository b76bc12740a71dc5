//! Shared plugin metadata types: what a packaged plugin declares about
//! itself and what it depends on.

use vstd::prelude::*;

verus! {

/// One declared dependency of a plugin.
pub struct PluginDependency {
    pub id: String,
    pub version_req: String,
    pub optional: bool,
}

/// What a packaged plugin declares about itself.
pub struct PluginMetadata {
    pub id: String,
    pub name: String,
    pub version: String,
    pub description: String,
    pub author: String,
    pub homepage: Option<String>,
    pub repository: Option<String>,
    pub dependencies: Vec<PluginDependency>,
    pub library: String,
}

/// A plugin loaded from a manifest: its metadata, its script text, and where
/// its file lives (as a plain path, set by the caller that read it).
pub struct DenoPlugin {
    pub name: String,
    pub description: String,
    pub script: String,
    pub dependencies: Vec<String>,
    pub file_path: Option<String>,
}

} // verus!
