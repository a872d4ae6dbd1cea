//! Log level selection for the command-line tool and the daemon.

use vstd::prelude::*;

verus! {

/// How much the tools report: warnings only by default, progress messages
/// when verbose, debugging detail on top.
#[derive(Clone, Copy, Debug, PartialEq, Eq, Structural)]
pub enum LogLevel {
    /// Warnings and errors only.
    Warn,
    /// Detailed progress messages as well.
    Info,
    /// Debugging messages as well; implies the rest.
    Debug,
}

/// The log level the command-line flags ask for: debugging detail wins over
/// verbosity, and the default is warnings only.
pub fn compute_log_level(verbose: bool, debug: bool) -> (r: LogLevel)
    ensures
        r == (if debug {
            LogLevel::Debug
        } else if verbose {
            LogLevel::Info
        } else {
            LogLevel::Warn
        }),
{
    if debug {
        LogLevel::Debug
    } else if verbose {
        LogLevel::Info
    } else {
        LogLevel::Warn
    }
}

} // verus!
