//! Error taxonomy of the plugin subsystem.
//!
//! Every failure the library reports falls in one of these kinds, so a caller
//! can tell "fix your plugin code" from "install the interpreter" from
//! "try again, it timed out".

use vstd::prelude::*;

verus! {

/// One error kind per failure class of the plugin subsystem.
#[derive(Debug)]
pub enum PluginError {
    /// A filesystem operation failed; carries the underlying message.
    Io(String),
    /// JSON could not be decoded or encoded; carries the offending raw text.
    Json(String),
    /// A catalog or environment file could not be parsed.
    Config(String),
    /// No script interpreter is installed.
    RuntimeNotInstalled,
    /// An execution exceeded its configured timeout.
    Timeout,
    /// No plugin or service with the given identifier exists.
    NotFound(String),
    /// The plugin's or service's own code failed; carries its message.
    PluginRuntimeError(String),
}

impl PluginError {
    /// A stable, distinct message for each error kind.
    pub fn message(&self) -> (r: String)
        ensures
            r@ == self.message_spec(),
    {
        match self {
            PluginError::Io(m) => {
                let mut s = String::new();
                s.append("io error: ");
                s.append(m.as_str());
                s
            },
            PluginError::Json(m) => {
                let mut s = String::new();
                s.append("json error: ");
                s.append(m.as_str());
                s
            },
            PluginError::Config(m) => {
                let mut s = String::new();
                s.append("config error: ");
                s.append(m.as_str());
                s
            },
            PluginError::RuntimeNotInstalled => {
                let mut s = String::new();
                s.append("runtime not installed");
                s
            },
            PluginError::Timeout => {
                let mut s = String::new();
                s.append("execution timed out");
                s
            },
            PluginError::NotFound(id) => {
                let mut s = String::new();
                s.append("not found: ");
                s.append(id.as_str());
                s
            },
            PluginError::PluginRuntimeError(m) => {
                let mut s = String::new();
                s.append("plugin error: ");
                s.append(m.as_str());
                s
            },
        }
    }

    /// What `message` returns, by error kind.
    pub open spec fn message_spec(&self) -> Seq<char> {
        match self {
            PluginError::Io(m) => "io error: "@ + m@,
            PluginError::Json(m) => "json error: "@ + m@,
            PluginError::Config(m) => "config error: "@ + m@,
            PluginError::RuntimeNotInstalled => "runtime not installed"@,
            PluginError::Timeout => "execution timed out"@,
            PluginError::NotFound(id) => "not found: "@ + id@,
            PluginError::PluginRuntimeError(m) => "plugin error: "@ + m@,
        }
    }
}

} // verus!
