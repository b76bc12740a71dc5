//! Agent-side types: the runtime's lifecycle states, the declared shape of a
//! tool's parameters, scheduling hints, and the command-line tool handler's
//! configuration. Running an agent and spawning its commands are the
//! caller's work.

use vstd::prelude::*;

verus! {

/// The lifecycle state of one agent runtime.
pub enum AgentState {
    Ready,
    Running,
    Paused,
    Stopped,
    Error(String),
}

/// One declared parameter of an agent tool.
pub struct Parameter {
    pub name: String,
    pub description: String,
    pub required: bool,
    pub param_type: String,
}

/// When a scheduled agent fires.
pub struct Timing {
    pub timing_type: String,
    pub time: Option<String>,
    pub day_of_week: Option<i32>,
    pub day_of_month: Option<i32>,
    pub enable: bool,
}

/// A tool handler that runs one fixed command with fixed leading arguments;
/// the caller spawns the command and appends the call's own arguments.
pub struct CommandToolHandler {
    pub command: String,
    pub args: Vec<String>,
    pub working_dir: Option<String>,
}

impl CommandToolHandler {
    /// A handler for `command`, run with `args` from `working_dir`.
    pub fn new(command: String, args: Vec<String>, working_dir: Option<String>) -> (r: Self)
        ensures
            r.command == command,
            r.args == args,
            r.working_dir == working_dir,
    {
        CommandToolHandler { command, args, working_dir }
    }
}

} // verus!
