//! The data a formatter works on: the severity level of a log event and
//! the plain record handed to a formatter, plus the formatter capability
//! itself.

use vstd::prelude::*;

verus! {

/// Severity of a log event, most severe first.
#[derive(Clone, Copy, Debug, PartialEq, Eq, Structural)]
pub enum Level {
    Error,
    Warn,
    Info,
    Debug,
    Trace,
}

impl Level {
    /// The lower-case name of the level, as it is rendered into lines.
    pub open spec fn spec_name(self) -> Seq<char> {
        match self {
            Level::Error => ("error")@,
            Level::Warn => ("warn")@,
            Level::Info => ("info")@,
            Level::Debug => ("debug")@,
            Level::Trace => ("trace")@,
        }
    }

    /// The lower-case name of the level.
    pub fn as_str(&self) -> (r: &'static str)
        ensures
            r@ == self.spec_name(),
    {
        match self {
            Level::Error => "error",
            Level::Warn => "warn",
            Level::Info => "info",
            Level::Debug => "debug",
            Level::Trace => "trace",
        }
    }
}

/// One structured log event, reduced to plain values: severity, message
/// text, the logger target, and the optional source location.
pub struct LogRecord {
    pub level: Level,
    pub message: String,
    pub target: String,
    pub module: Option<String>,
    pub file: Option<String>,
    pub line: Option<u32>,
}

/// `LokiFormatter` implementations marshal a log record to a string, by
/// appending to `dst`. Implement it to customize the format of the lines
/// that get shipped; a logfmt implementation is provided by default.
pub trait LokiFormatter: Send + Sync {
    fn write_record(&self, dst: &mut String, rec: &LogRecord);
}

} // verus!
