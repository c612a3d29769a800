//! The per-container session record.
//!
//! The runtime work on a container (create, start, stop, remove, exec) is
//! asynchronous I/O and happens outside the library; the library keeps the
//! record of each container and decides what to do with it.

use vstd::prelude::*;

use crate::chars::{push_str_chars, string_from_chars};
use crate::logger::Logger;

verus! {

/// The in-memory record of one container sandbox.
#[derive(Debug)]
pub struct BoaContainer {
    pub logger: Logger,
    pub container_id: String,
    pub started: bool,
    pub executing: bool,
}

impl Clone for BoaContainer {
    fn clone(&self) -> (r: BoaContainer)
        ensures
            r == *self,
    {
        BoaContainer {
            logger: self.logger.clone(),
            container_id: self.container_id.clone(),
            started: self.started,
            executing: self.executing,
        }
    }
}

impl BoaContainer {
    /// A record for a container that was just created and not yet started.
    pub fn fresh(container_id: String) -> (r: BoaContainer)
        ensures
            r.container_id@ == container_id@,
            !r.started,
            !r.executing,
            r.logger.prefix@ == "[boa-server#."@ + container_id@ + "]"@,
    {
        let mut prefix: Vec<char> = Vec::new();
        push_str_chars(&mut prefix, "[boa-server#.");
        push_str_chars(&mut prefix, container_id.as_str());
        push_str_chars(&mut prefix, "]");
        let logger = Logger::new(string_from_chars(&prefix));
        BoaContainer { logger, container_id, started: false, executing: false }
    }
}

} // verus!
