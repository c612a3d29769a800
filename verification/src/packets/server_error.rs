//! Older error frame shape, kept for wire compatibility.

use vstd::prelude::*;

verus! {

/// An error frame carrying only a reason and whether it ends the connection.
#[derive(Debug, Clone, PartialEq, Eq)]
pub struct ServerErrorPacket {
    pub message: String,
    pub fatal: bool,
}

} // verus!
