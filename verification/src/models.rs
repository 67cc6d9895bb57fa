//! The records that the store holds.

use vstd::prelude::*;

verus! {

/// One persisted note.
#[derive(Debug, Clone, PartialEq, Eq)]
pub struct LogEntry {
    /// Assigned by the store on insertion; never changes.
    pub id: i32,
    /// The instant of creation, as RFC 3339 text.
    pub timestamp: String,
    /// The note itself.
    pub content: String,
    /// Comma-separated labels, if any were given.
    pub tags: Option<String>,
    /// The canonical absolute path of the directory the note belongs to.
    pub directory: String,
}

} // verus!
