//! Host library for running untrusted script plugins in an external
//! interpreter process and supervising long-lived tool services.
//!
//! The library holds the verified core: the wrapper-script codec with its
//! escaping primitive, the plugin registry, the runtime planning and outcome
//! classification, the environment store, and the service supervisor's handle
//! table. Process spawning, file persistence and the UI boundary live outside
//! the library and drive it with plain values.

pub mod agents;
pub mod codec;
pub mod env_store;
pub mod errors;
pub mod files;
pub mod history;
pub mod ids;
pub mod json;
pub mod js_manager;
pub mod knowledge;
pub mod llm_config;
pub mod market;
pub mod model_manager;
pub mod paths;
pub mod plugin_types;
pub mod registry;
pub mod runtime;
pub mod shell;
pub mod string_map;
pub mod supervisor;
pub mod text;

use vstd::prelude::*;

verus! {

/// Number of characters in a generated plugin identifier.
pub const ID_LEN: usize = 16;

} // verus!
