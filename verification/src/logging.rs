//! `-d`: how much of the diagnostics is shown.
use vstd::prelude::*;

verus! {

/// How verbose a diagnostic is, the least verbose first.
#[derive(Debug, Clone, Copy, PartialEq, Eq, PartialOrd, Ord, Structural)]
pub enum Level {
    /// Something failed.
    Error,
    /// Something is wrong.
    Warn,
    /// Narration.
    Info,
    /// What the tool is doing.
    Debug,
    /// Everything.
    Trace,
}

/// The level a quiet run reports at: warnings and errors only.
pub const QUIET: Level = Level::Warn;

/// The level `-d` selects.
pub const VERBOSE: Level = Level::Debug;

/// The level for a given `--debug` state.
pub fn level(debug: bool) -> (level: Level)
    ensures
        level == (if debug {
            VERBOSE
        } else {
            QUIET
        }),
{
    if debug {
        VERBOSE
    } else {
        QUIET
    }
}

} // verus!
