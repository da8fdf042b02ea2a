//! Command-line arguments of the server.

use vstd::prelude::*;

verus! {

/// How much is logged.
#[derive(Clone, Copy, PartialEq, Eq, Structural, Debug)]
pub enum LogLevel {
    Error,
    Warn,
    Info,
    Debug,
    Trace,
}

impl LogLevel {
    /// The level when none is given: `info`.
    pub fn default_level() -> (l: LogLevel)
        ensures
            l == LogLevel::Info,
    {
        LogLevel::Info
    }
}

/// The server's arguments.
#[derive(Debug)]
pub struct Args {
    /// Directory of the function registry (`--registry`, `-r`).
    pub registry: String,
    /// Log level (`--log-lvl`, `-l`), `info` by default.
    pub log_lvl: LogLevel,
}

} // verus!
