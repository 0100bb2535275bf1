//! What the reader can set while the program runs.

use vstd::prelude::*;

verus! {

/// How much the program logs: everything up to this level.
#[derive(Clone, Copy, Debug, PartialEq, Eq, Structural)]
pub enum LogLevel {
    Off,
    Error,
    Warn,
    Info,
    Debug,
    Trace,
}

/// The settings of the program.
#[derive(Clone, Copy, Debug, PartialEq, Eq, Structural)]
pub struct Settings {
    pub log_level: LogLevel,
}

impl LogLevel {
    /// The level that follows when the reader asks for the next one: from
    /// warnings to debugging, from debugging to tracing, and from anything
    /// else back to warnings.
    pub open spec fn following(self) -> LogLevel {
        match self {
            LogLevel::Warn => LogLevel::Debug,
            LogLevel::Debug => LogLevel::Trace,
            _ => LogLevel::Warn,
        }
    }

    /// The level that follows when the reader asks for the next one.
    pub fn next(self) -> (level: LogLevel)
        ensures
            level == self.following(),
    {
        match self {
            LogLevel::Warn => LogLevel::Debug,
            LogLevel::Debug => LogLevel::Trace,
            _ => LogLevel::Warn,
        }
    }
}

impl Default for Settings {
    fn default() -> (settings: Settings)
        ensures
            settings.log_level == LogLevel::Debug,
    {
        Settings { log_level: LogLevel::Debug }
    }
}

} // verus!
