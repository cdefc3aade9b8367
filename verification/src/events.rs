//! Events the terminal system reports to its host.

use vstd::prelude::*;

verus! {

/// A notable occurrence in the terminal system, surfaced once to the
/// host: session start, session end, or an unrecoverable error.
#[derive(Debug)]
pub enum TerminalEvent {
    /// The pseudo-terminal and its shell started successfully.
    Spawned,
    /// The shell process exited; the session is inert from here on.
    ProcessExited {
        /// The process's exit code, when the platform reports one.
        exit_code: Option<i32>,
    },
    /// An unrecoverable error ended the session.
    Error {
        /// A human-readable description.
        message: String,
    },
}

} // verus!
