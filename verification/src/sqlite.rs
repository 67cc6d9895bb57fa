//! The calls into the `rusqlite` crate. Nothing here is proved: each
//! function hands a statement to the store and returns what the store
//! answered. What comes back depends on what the store holds, so none of
//! them promises anything about it.

use crate::models::LogEntry;
use crate::query::{SqlValue, Statement};
use rusqlite::types::Value;
use rusqlite::{Connection, OptionalExtension};
use vstd::prelude::*;

verus! {

/// A connection of the `rusqlite` crate, carried through unopened.
#[verifier::external_type_specification]
#[verifier::external_body]
pub struct ExConnection(rusqlite::Connection);

/// Calls `Connection::open` on `path`: opens the database file there,
/// creating it if it is missing.
#[verifier::external_body]
pub(crate) fn open(path: &str) -> (r: Result<Connection, rusqlite::Error>) {
    Connection::open(path)
}

/// Calls `Connection::execute` with the statement's text and values, and
/// returns the number of rows that the store reports as changed.
#[verifier::external_body]
pub(crate) fn execute(conn: &Connection, stmt: &Statement) -> (r: Result<usize, rusqlite::Error>) {
    let values = stmt.params.iter().map(|p| match p {
        SqlValue::Integer(n) => Value::Integer(*n),
        SqlValue::Text(t) => Value::Text(t.clone()),
        SqlValue::Null => Value::Null,
    });
    conn.execute(stmt.sql.as_str(), rusqlite::params_from_iter(values))
}

/// Calls `Statement::insert` on the prepared statement, and returns the row
/// id that the store assigned.
#[verifier::external_body]
pub(crate) fn insert(conn: &Connection, stmt: &Statement) -> (r: Result<i64, rusqlite::Error>) {
    let values = stmt.params.iter().map(|p| match p {
        SqlValue::Integer(n) => Value::Integer(*n),
        SqlValue::Text(t) => Value::Text(t.clone()),
        SqlValue::Null => Value::Null,
    });
    conn.prepare(stmt.sql.as_str())?.insert(rusqlite::params_from_iter(values))
}

/// Calls `Statement::query_map` on the prepared statement, and returns each
/// row as an entry: the columns are read in the order id, timestamp,
/// content, tags, directory.
#[verifier::external_body]
pub(crate) fn query_entries(conn: &Connection, stmt: &Statement) -> (r: Result<
    Vec<LogEntry>,
    rusqlite::Error,
>) {
    let values = stmt.params.iter().map(|p| match p {
        SqlValue::Integer(n) => Value::Integer(*n),
        SqlValue::Text(t) => Value::Text(t.clone()),
        SqlValue::Null => Value::Null,
    });
    let mut prepared = conn.prepare(stmt.sql.as_str())?;
    let rows = prepared.query_map(rusqlite::params_from_iter(values), |row| {
        Ok(LogEntry { id: row.get(0)?, timestamp: row.get(1)?, content: row.get(2)?, tags: row.get(3)?, directory: row.get(4)? })
    })?;
    rows.collect()
}

/// Calls `Statement::query_map` on the prepared statement, and returns the
/// first column of each row as text.
#[verifier::external_body]
pub(crate) fn query_texts(conn: &Connection, stmt: &Statement) -> (r: Result<
    Vec<String>,
    rusqlite::Error,
>) {
    let values = stmt.params.iter().map(|p| match p {
        SqlValue::Integer(n) => Value::Integer(*n),
        SqlValue::Text(t) => Value::Text(t.clone()),
        SqlValue::Null => Value::Null,
    });
    let mut prepared = conn.prepare(stmt.sql.as_str())?;
    let rows = prepared.query_map(rusqlite::params_from_iter(values), |row| row.get(0))?;
    rows.collect()
}

/// Calls `Connection::query_row` and `OptionalExtension::optional`, and
/// returns the first column of the first row as text, or `None` where the
/// store finds no row.
#[verifier::external_body]
pub(crate) fn query_optional_text(conn: &Connection, stmt: &Statement) -> (r: Result<
    Option<String>,
    rusqlite::Error,
>) {
    let values = stmt.params.iter().map(|p| match p {
        SqlValue::Integer(n) => Value::Integer(*n),
        SqlValue::Text(t) => Value::Text(t.clone()),
        SqlValue::Null => Value::Null,
    });
    conn.query_row(stmt.sql.as_str(), rusqlite::params_from_iter(values), |row| row.get(0)).optional()
}

} // verus!
