//! A prefix that tags every log line of one component.
//!
//! Writing the lines is I/O and happens outside the library; the library
//! only builds and carries the prefix.

use vstd::prelude::*;

verus! {

/// A log-line prefix.
#[derive(Debug)]
pub struct Logger {
    pub prefix: String,
}

impl Logger {
    /// A logger that tags its lines with `prefix`.
    pub fn new(prefix: String) -> (r: Logger)
        ensures
            r.prefix@ == prefix@,
    {
        Logger { prefix }
    }
}

impl Clone for Logger {
    fn clone(&self) -> (r: Logger)
        ensures
            r == *self,
    {
        Logger { prefix: self.prefix.clone() }
    }
}

} // verus!
