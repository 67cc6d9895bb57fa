//! The failures that the operations of this library report.

use crate::text::{decimal, decimal_chars, string_of};
use vstd::prelude::*;
use vstd::string::StringExecFns;

verus! {

/// The error type of the `rusqlite` crate, carried through unopened.
#[verifier::external_type_specification]
#[verifier::external_body]
pub struct ExSqlError(rusqlite::Error);

/// The error type of `std::io`, carried through unopened.
#[verifier::external_type_specification]
#[verifier::external_body]
pub struct ExIoError(std::io::Error);

/// Why an operation did not succeed.
#[derive(Debug)]
pub enum DlogError {
    /// The file system refused an operation.
    Io(std::io::Error),
    /// The store refused a statement.
    Sql(rusqlite::Error),
    /// The user's home directory is unknown.
    HomeDirNotFound,
    /// The user's input is malformed; the text says how.
    InvalidInput(String),
    /// The editor ended with a failure status.
    EditorError,
    /// No entry has this id.
    LogNotFound(i32),
}

impl DlogError {
    /// Whether this is `InvalidInput` with exactly the text `msg`.
    pub open spec fn is_invalid_input(&self, msg: Seq<char>) -> bool {
        match self {
            DlogError::InvalidInput(text) => text@ == msg,
            _ => false,
        }
    }

    /// The text shown for this error, where it does not depend on an error
    /// of the file system or of the store.
    pub open spec fn fixed_message(&self) -> Option<Seq<char>> {
        match self {
            DlogError::Io(_) => None,
            DlogError::Sql(_) => None,
            DlogError::HomeDirNotFound => Some("Home directory not found"@),
            DlogError::InvalidInput(text) => Some("Invalid input: "@ + text@),
            DlogError::EditorError => Some("Editor exited with a non-zero status"@),
            DlogError::LogNotFound(id) => Some("Log ID "@ + decimal(*id as int) + " not found"@),
        }
    }

    /// The text shown for this error. For `Io` and `Sql` it is a fixed
    /// prefix followed by the underlying error's own description.
    pub fn message(&self) -> (out: String)
        ensures
            match self.fixed_message() {
                Some(text) => out@ == text,
                None => match self {
                    DlogError::Io(_) => "IO Error: "@.is_prefix_of(out@),
                    _ => "Database Error: "@.is_prefix_of(out@),
                },
            },
    {
        match self {
            DlogError::Io(e) => {
                let detail = e.to_string();
                String::from_str("IO Error: ").concat(detail.as_str())
            },
            DlogError::Sql(e) => {
                let detail = e.to_string();
                String::from_str("Database Error: ").concat(detail.as_str())
            },
            DlogError::HomeDirNotFound => String::from_str("Home directory not found"),
            DlogError::InvalidInput(text) => String::from_str("Invalid input: ").concat(
                text.as_str(),
            ),
            DlogError::EditorError => String::from_str("Editor exited with a non-zero status"),
            DlogError::LogNotFound(id) => {
                let number = string_of(&decimal_chars(*id));
                String::from_str("Log ID ").concat(number.as_str()).concat(" not found")
            },
        }
    }
}

} // verus!
