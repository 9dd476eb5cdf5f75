//! The commands the command-line front end hands to the program.

use vstd::prelude::*;

verus! {

/// What the program was asked to do.
pub enum Command {
    /// Run the governor service, with an optional working directory that
    /// holds the configuration file and the usage ledger.
    Server { cfg_path: Option<String> },
    /// Ask a running service for its status over the control socket.
    Status,
    /// Reserved diagnostic mode.
    Mutex,
}

/// The parsed command line.
pub struct LuminarArgs {
    pub cmd: Command,
}

} // verus!
