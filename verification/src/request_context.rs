//! The per-request context: parameters and the severity-gated log
//! buffer that every stage of a decode writes into.

use vstd::prelude::*;
use crate::decoding_parameters::DecodingParameters;
use crate::log::{LogEntry, LogLevel};

verus! {

/// Carries the request's parameter set and its ordered log buffer.
/// The buffer keeps only entries at or above the request's minimum
/// severity and is handed back to the caller with the result.
pub struct RequestContext<'a> {
    pub params: &'a DecodingParameters,
    pub log_level: u8,
    pub log: Vec<LogEntry>,
}

impl<'a> RequestContext<'a> {
    /// The numeric minimum severity of this context.
    pub open spec fn spec_log_level(&self) -> u8 {
        self.log_level
    }

    pub fn new(params: &'a DecodingParameters, log_level: LogLevel) -> (r: RequestContext<'a>)
        ensures
            r.params == params,
            r.spec_log_level() == log_level.spec_to_u8(),
    {
        RequestContext { params, log_level: log_level.to_u8(), log: Vec::new() }
    }

    pub fn is_enabled_for_trace(&self) -> (r: bool)
        ensures
            r == (self.spec_log_level() <= 0),
    {
        self.log_level <= 0
    }

    pub fn is_enabled_for_debug(&self) -> (r: bool)
        ensures
            r == (self.spec_log_level() <= 1),
    {
        self.log_level <= 1
    }

    pub fn is_enabled_for_info(&self) -> (r: bool)
        ensures
            r == (self.spec_log_level() <= 2),
    {
        self.log_level <= 2
    }

    pub fn is_enabled_for_warn(&self) -> (r: bool)
        ensures
            r == (self.spec_log_level() <= 3),
    {
        self.log_level <= 3
    }

    pub fn is_enabled_for_error(&self) -> (r: bool)
        ensures
            r == (self.spec_log_level() <= 4),
    {
        self.log_level <= 4
    }

    pub fn is_enabled_for_fatal(&self) -> (r: bool)
        ensures
            r == (self.spec_log_level() <= 5),
    {
        self.log_level <= 5
    }

    /// Appends an entry if `level` is at or above the context's minimum
    /// severity.
    fn append(&mut self, level: LogLevel, msg: &str)
        ensures
            final(self).params == old(self).params,
            final(self).spec_log_level() == old(self).spec_log_level(),
    {
        if level.to_u8() >= self.log_level {
            let entry = LogEntry::new(level, String::from_str(msg));
            self.log.push(entry);
        }
    }

    pub fn trace(&mut self, msg: &str)
        ensures
            final(self).params == old(self).params,
            final(self).spec_log_level() == old(self).spec_log_level(),
    {
        self.append(LogLevel::Trace, msg);
    }

    pub fn debug(&mut self, msg: &str)
        ensures
            final(self).params == old(self).params,
            final(self).spec_log_level() == old(self).spec_log_level(),
    {
        self.append(LogLevel::Debug, msg);
    }

    pub fn info(&mut self, msg: &str)
        ensures
            final(self).params == old(self).params,
            final(self).spec_log_level() == old(self).spec_log_level(),
    {
        self.append(LogLevel::Info, msg);
    }

    pub fn warn(&mut self, msg: &str)
        ensures
            final(self).params == old(self).params,
            final(self).spec_log_level() == old(self).spec_log_level(),
    {
        self.append(LogLevel::Warn, msg);
    }

    pub fn error(&mut self, msg: &str)
        ensures
            final(self).params == old(self).params,
            final(self).spec_log_level() == old(self).spec_log_level(),
    {
        self.append(LogLevel::Error, msg);
    }

    pub fn fatal(&mut self, msg: &str)
        ensures
            final(self).params == old(self).params,
            final(self).spec_log_level() == old(self).spec_log_level(),
    {
        self.append(LogLevel::Fatal, msg);
    }

    /// A copy of the accumulated log buffer.
    pub fn get_log(&self) -> Vec<LogEntry> {
        self.log.clone()
    }

    /// Hands the accumulated log buffer out, emptying the context.
    pub fn take_log(&mut self) -> (r: Vec<LogEntry>)
        ensures
            final(self).params == old(self).params,
            final(self).spec_log_level() == old(self).spec_log_level(),
    {
        let mut out: Vec<LogEntry> = Vec::new();
        core::mem::swap(&mut out, &mut self.log);
        out
    }
}

} // verus!
