//! A levelled logger. The engine only decides which messages deserve
//! emission; the sink that actually prints lives with the embedding program.

use vstd::prelude::*;

verus! {

/// Severity of a diagnostic message.
#[derive(Clone, Copy, Debug, PartialEq, Eq, Structural)]
pub enum LogLevel {
    Debug,
    Info,
    Warning,
    Error,
}

/// Severity as a number, for comparing levels.
pub open spec fn level_rank(l: LogLevel) -> int {
    match l {
        LogLevel::Debug => 0,
        LogLevel::Info => 1,
        LogLevel::Warning => 2,
        LogLevel::Error => 3,
    }
}

/// The logger configuration: the least severity that is emitted.
#[derive(Clone, Copy, Debug)]
pub struct Logger {
    pub level: LogLevel,
}

impl Logger {
    pub fn set_level(&mut self, level: LogLevel)
        ensures
            final(self).level == level,
    {
        self.level = level;
    }

    pub fn get_level(&self) -> (r: LogLevel)
        ensures
            r == self.level,
    {
        self.level
    }

    /// A message is emitted exactly when it is at least as severe as the
    /// configured level.
    pub fn should_emit(&self, level: LogLevel) -> (r: bool)
        ensures
            r == (level_rank(level) >= level_rank(self.level)),
    {
        rank(level) >= rank(self.level)
    }
}

impl Default for Logger {
    /// Informational logging.
    fn default() -> (r: Self)
        ensures
            r.level is Info,
    {
        Logger { level: LogLevel::Info }
    }
}

fn rank(l: LogLevel) -> (r: u8)
    ensures
        r as int == level_rank(l),
{
    match l {
        LogLevel::Debug => 0,
        LogLevel::Info => 1,
        LogLevel::Warning => 2,
        LogLevel::Error => 3,
    }
}

} // verus!
