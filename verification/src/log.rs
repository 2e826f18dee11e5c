//! The per-request log buffer: severity levels and entries.

use vstd::prelude::*;

verus! {

/// Severity of a log entry, from most verbose to most severe.
#[derive(Debug, Clone, Copy, PartialEq, Eq, Structural)]
pub enum LogLevel {
    Trace,
    Debug,
    Info,
    Warn,
    Error,
    Fatal,
}

impl LogLevel {
    /// The numeric rank of this level; higher is more severe.
    pub open spec fn spec_to_u8(&self) -> u8 {
        match self {
            LogLevel::Trace => 0,
            LogLevel::Debug => 1,
            LogLevel::Info => 2,
            LogLevel::Warn => 3,
            LogLevel::Error => 4,
            LogLevel::Fatal => 5,
        }
    }

    pub fn to_u8(&self) -> (r: u8)
        ensures
            r == self.spec_to_u8(),
            r <= 5,
    {
        match self {
            LogLevel::Trace => 0,
            LogLevel::Debug => 1,
            LogLevel::Info => 2,
            LogLevel::Warn => 3,
            LogLevel::Error => 4,
            LogLevel::Fatal => 5,
        }
    }

    /// The level of a numeric rank; ranks above 5 fall to `Fatal`, the
    /// most severe level.
    pub fn from_u8(item: u8) -> (r: LogLevel)
        ensures
            item <= 5 ==> r.spec_to_u8() == item,
            item > 5 ==> r == LogLevel::Fatal,
    {
        match item {
            0 => LogLevel::Trace,
            1 => LogLevel::Debug,
            2 => LogLevel::Info,
            3 => LogLevel::Warn,
            4 => LogLevel::Error,
            _ => LogLevel::Fatal,
        }
    }
}

/// One entry of the per-request log buffer.
#[derive(Debug, Clone)]
pub struct LogEntry {
    pub level: LogLevel,
    pub txt: String,
}

impl LogEntry {
    pub fn new(level: LogLevel, txt: String) -> (r: LogEntry)
        ensures
            r.level == level,
            r.txt == txt,
    {
        LogEntry { level, txt }
    }
}

} // verus!
