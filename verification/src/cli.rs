//! The command line: an optional socket path and one command.
use vstd::prelude::*;

verus! {

/// The parsed command line.
#[derive(Debug, Clone)]
pub struct Cli {
    /// The socket to reach the Engine at, when not the default one.
    pub socket: Option<String>,
    pub command: Commands,
}

/// The commands of the tool.
#[derive(Debug, Clone)]
pub enum Commands {
    /// Lists containers (the running ones unless `all`), as a table or JSON.
    List { all: bool, quiet: bool, format: String },
    /// Prints the full description of each container.
    Inspect { ids: Vec<String> },
    /// Starts each container.
    Start { ids: Vec<String> },
    /// Stops each container, waiting `timeout` seconds when given.
    Stop { ids: Vec<String>, timeout: Option<u64> },
    /// Restarts each container, waiting `timeout` seconds when given.
    Restart { ids: Vec<String>, timeout: Option<u64> },
    /// Removes each container; `force` kills a running one, `volumes` removes its volumes.
    Rm { ids: Vec<String>, force: bool, volumes: bool },
    /// Shows one usage sample of each container (of each running one when none is named).
    Stats { ids: Vec<String> },
    /// Shows the log of a container.
    Logs {
        id: String,
        follow: bool,
        tail: Option<String>,
        since: Option<String>,
        until: Option<String>,
        timestamps: bool,
    },
}

} // verus!
