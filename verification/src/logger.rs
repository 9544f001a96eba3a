use vstd::prelude::*;
use vstd::string::StringExecFns;

verus! {

/// Verbosity of one log record, from least to most verbose.
#[derive(Debug, Clone, Copy, PartialEq, Eq, Structural)]
pub enum LogLevel {
    Error,
    Warn,
    Info,
    Debug,
    Trace,
}

/// Numeric verbosity of a level: a higher number is more verbose.
pub open spec fn verbosity(level: LogLevel) -> nat {
    match level {
        LogLevel::Error => 1,
        LogLevel::Warn => 2,
        LogLevel::Info => 3,
        LogLevel::Debug => 4,
        LogLevel::Trace => 5,
    }
}

fn verbosity_of(level: LogLevel) -> (v: u32)
    ensures
        v == verbosity(level),
{
    match level {
        LogLevel::Error => 1,
        LogLevel::Warn => 2,
        LogLevel::Info => 3,
        LogLevel::Debug => 4,
        LogLevel::Trace => 5,
    }
}

/// Logger used to provide context about the mount process. Which records
/// are kept and the shape of a log line are decided here; the binary around
/// the library owns the output sink and the clock.
#[derive(Debug)]
pub struct Logger {}

impl Logger {
    /// Whether a record of this level is logged: everything up to and
    /// including the most verbose level is.
    pub fn enabled(&self, level: LogLevel) -> (keep: bool)
        ensures
            keep == (verbosity(level) <= verbosity(LogLevel::Trace)),
    {
        verbosity_of(level) <= verbosity_of(LogLevel::Trace)
    }

    /// One formatted log line: the timestamp, then the level name, then the
    /// record itself.
    pub fn format_line(&self, timestamp: &str, level: &str, message: &str) -> (line: String)
        ensures
            line@ == timestamp@ + " - "@ + level@ + ": "@ + message@,
    {
        let mut line = String::from_str(timestamp);
        line.append(" - ");
        line.append(level);
        line.append(": ");
        line.append(message);
        line
    }
}

} // verus!
