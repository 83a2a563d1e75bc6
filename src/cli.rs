//! The commands the tool accepts, as plain data.

use vstd::prelude::*;

verus! {

/// Which stage list a run goes through.
#[derive(Clone, Copy, Debug, PartialEq, Eq, Structural)]
pub enum Mode {
    Fast,
    Full,
}

/// One invocation of the tool.
#[derive(Clone, Debug)]
pub enum Command {
    /// Write a configuration file from a named template.
    Init { force: bool, template: String },
    /// Run the pipeline; `no_save` keeps the outcome out of the log.
    Run { mode: Mode, no_save: bool },
    /// Summarise the most recent `last` runs.
    Report { last: usize },
    /// Advise on recent timings.
    Doctor,
    /// List the template names.
    Examples,
}

/// Parsed command line.
#[derive(Clone, Debug)]
pub struct Args {
    pub command: Command,
}

} // verus!
