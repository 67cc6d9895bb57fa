//! The storage engine: creating, reading, changing and removing entries in
//! the store behind a connection.
//!
//! Each operation builds one statement and hands it to the store. What the
//! store answers depends on what it holds, so the contracts here say which
//! statement is run, when no statement is run at all, and how the store's
//! answer is passed on.

use crate::clock::now_rfc3339;
use crate::error::DlogError;
use crate::models::LogEntry;
use crate::paths::{join_path, joined_path};
use crate::query::{
    content_statement, delete_by_directories_statement, delete_by_ids_statement,
    directories_statement, fetch_statement, insert_statement, schema_statement, scope_statement,
    update_statement,
};
use crate::sqlite::{execute, insert, open, query_entries, query_optional_text, query_texts};
use rusqlite::Connection;
use vstd::prelude::*;

verus! {

/// Passes on the store's answer: a value as it is, a failure as `Sql`.
pub fn stored<T>(answer: Result<T, rusqlite::Error>) -> (r: Result<T, DlogError>)
    ensures
        match answer {
            Ok(value) => r == Ok::<T, DlogError>(value),
            Err(e) => r == Err::<T, DlogError>(DlogError::Sql(e)),
        },
{
    match answer {
        Ok(value) => Ok(value),
        Err(e) => Err(DlogError::Sql(e)),
    }
}

/// Whether `r` is a success or a failure of the store.
pub open spec fn ok_or_sql<T>(r: Result<T, DlogError>) -> bool {
    r is Err ==> r->Err_0 is Sql
}

/// Where the store lies below the home directory `home`.
pub open spec fn db_path_under(home: Seq<char>) -> Seq<char> {
    joined_path(home, ".config/dlog/dlog.db"@)
}

/// The path of the store's file, given the user's home directory, or
/// `HomeDirNotFound` where the home directory is unknown.
pub fn get_db_path(home: Option<&str>) -> (r: Result<String, DlogError>)
    ensures
        match home {
            Some(h) => r is Ok && r->Ok_0@ == db_path_under(h@),
            None => r is Err && r->Err_0 is HomeDirNotFound,
        },
{
    match home {
        Some(h) => Ok(join_path(h, ".config/dlog/dlog.db")),
        None => Err(DlogError::HomeDirNotFound),
    }
}

/// Opens the store in the file at `path`, creating the file if it is missing.
pub fn open_connection(path: &str) -> (r: Result<Connection, DlogError>)
    ensures
        ok_or_sql(r),
{
    stored(open(path))
}

/// Creates the table of entries unless it exists.
pub fn initialize_db(conn: &Connection) -> (r: Result<(), DlogError>)
    ensures
        ok_or_sql(r),
{
    match stored(execute(conn, &schema_statement())) {
        Ok(_) => Ok(()),
        Err(e) => Err(e),
    }
}

/// Stores one new entry with the given creation time, and returns the id
/// that the store assigned to it.
pub fn add_log_at(
    conn: &Connection,
    timestamp: &str,
    dir: &str,
    content: &str,
    tags: Option<&str>,
) -> (r: Result<i64, DlogError>)
    ensures
        ok_or_sql(r),
{
    stored(insert(conn, &insert_statement(timestamp, dir, content, tags)))
}

/// Stores one new entry, created now, and returns the id that the store
/// assigned to it.
pub fn add_log(conn: &Connection, dir: &str, content: &str, tags: Option<&str>) -> (r: Result<
    i64,
    DlogError,
>)
    ensures
        ok_or_sql(r),
{
    let timestamp = now_rfc3339();
    add_log_at(conn, timestamp.as_str(), dir, content, tags)
}

/// Retrieves the entries in the scope of the normalized `path` that pass
/// every filter given, newest first, at most `limit` of them, or all where
/// `limit` is 0. Finding none is a success.
pub fn fetch_logs(
    conn: &Connection,
    path: &str,
    recursive: bool,
    limit: u32,
    tag: Option<&str>,
    date: Option<&str>,
    search: Option<&str>,
) -> (r: Result<Vec<LogEntry>, DlogError>)
    ensures
        ok_or_sql(r),
{
    stored(query_entries(conn, &fetch_statement(path, recursive, limit, tag, date, search)))
}

/// The content of the entry `id`, or `None` where there is no such entry.
pub fn get_log_content(conn: &Connection, id: i32) -> (r: Result<Option<String>, DlogError>)
    ensures
        ok_or_sql(r),
{
    stored(query_optional_text(conn, &content_statement(id)))
}

/// Replaces the content of the entry `id`, and returns the number of
/// entries changed.
pub fn update_log_content(conn: &Connection, id: i32, new_content: &str) -> (r: Result<
    usize,
    DlogError,
>)
    ensures
        ok_or_sql(r),
{
    stored(execute(conn, &update_statement(id, new_content)))
}

/// Removes the entries whose id is one of `ids`, and returns how many were
/// removed. With no ids the store is not touched and the count is 0.
pub fn delete_logs_by_id(conn: &Connection, ids: &[i32]) -> (r: Result<usize, DlogError>)
    ensures
        ok_or_sql(r),
        ids@.len() == 0 ==> r == Ok::<usize, DlogError>(0),
{
    match delete_by_ids_statement(ids) {
        Some(stmt) => stored(execute(conn, &stmt)),
        None => Ok(0),
    }
}

/// Every entry at or below the normalized `path`.
pub fn find_logs_in_path(conn: &Connection, path: &str) -> (r: Result<Vec<LogEntry>, DlogError>)
    ensures
        ok_or_sql(r),
{
    stored(query_entries(conn, &scope_statement(path)))
}

/// Each directory that some entry belongs to, once.
pub fn get_distinct_directories(conn: &Connection) -> (r: Result<Vec<String>, DlogError>)
    ensures
        ok_or_sql(r),
{
    stored(query_texts(conn, &directories_statement()))
}

/// Removes the entries whose directory is exactly one of `dirs`, and returns
/// how many were removed. With no directories the store is not touched and
/// the count is 0.
pub fn delete_logs_by_directory(conn: &Connection, dirs: &[String]) -> (r: Result<
    usize,
    DlogError,
>)
    ensures
        ok_or_sql(r),
        dirs@.len() == 0 ==> r == Ok::<usize, DlogError>(0),
{
    match delete_by_directories_statement(dirs) {
        Some(stmt) => stored(execute(conn, &stmt)),
        None => Ok(0),
    }
}

} // verus!
