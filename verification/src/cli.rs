//! The commands of the tool, as the command line hands them over.

use vstd::prelude::*;

verus! {

/// One invocation of the tool.
#[derive(Debug, Clone, PartialEq, Eq)]
pub struct Cli {
    pub command: Commands,
}

/// What the user asked for.
#[derive(Debug, Clone, PartialEq, Eq)]
pub enum Commands {
    /// Create the store if it is missing, and look for directories that
    /// have entries but no longer exist.
    Init,
    /// Record a note for the current directory. Without a message the note
    /// is written in an editor.
    Log { message: Option<String>, tags: Option<String> },
    /// Show the entries of a directory, the current one unless `path` names
    /// another; at most `num` of them, ten by default, all for zero.
    Get {
        path: Option<String>,
        num: Option<u32>,
        recursive: bool,
        tag: Option<String>,
        date: Option<String>,
        search: Option<String>,
    },
    /// Edit the content of the entry `id`.
    Fix { id: i32 },
    /// Remove the entries that the id specification `ids` selects or, with
    /// `recursive`, those at or below the current directory.
    Del { ids: Option<String>, recursive: bool },
}

} // verus!
