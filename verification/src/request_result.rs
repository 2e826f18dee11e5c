//! The envelope a decode request comes back in.

use vstd::prelude::*;
use crate::errors::OpenLrErr;
use crate::log::LogEntry;

verus! {

/// The outcome of one request: its id, the result or the error, the
/// elapsed wall time in microseconds, and the request's log buffer.
#[derive(Debug)]
pub struct RequestResult<T> {
    pub id: u64,
    pub result: Result<T, OpenLrErr>,
    pub elapsed_micros: u64,
    pub log: Vec<LogEntry>,
}

impl<T> RequestResult<T> {
    pub fn new(
        id: u64,
        result: Result<T, OpenLrErr>,
        elapsed_micros: u64,
        log: Vec<LogEntry>,
    ) -> (r: RequestResult<T>)
        ensures
            r.id == id,
            r.result == result,
            r.elapsed_micros == elapsed_micros,
            r.log == log,
    {
        RequestResult { id, result, elapsed_micros, log }
    }
}

} // verus!
