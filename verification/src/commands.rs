//! The commands, as far as they decide and touch the store. Asking the
//! user, running an editor and printing are the caller's part: each command
//! is a first step here, which says what the caller does next, and where
//! the user's answer matters a second step that takes the answer.

use crate::cli::Commands;
use crate::clock::{date_parses, is_calendar_date};
use crate::db::{
    add_log, delete_logs_by_directory, delete_logs_by_id, fetch_logs, find_logs_in_path,
    get_distinct_directories, get_log_content, initialize_db, ok_or_sql, update_log_content,
};
use crate::error::DlogError;
use crate::ids::{id_spec, ids_of, parse_id_range, strictly_ascending};
use crate::models::LogEntry;
use crate::text::{as_text, chars_of, optional_text, string_of, text_of, trim, trim_chars};
use rusqlite::Connection;
use vstd::prelude::*;
use vstd::string::StringExecFns;

verus! {

/// Whether `answer` agrees: it is `y` or `Y`, whitespace around it aside.
pub open spec fn is_yes(answer: Seq<char>) -> bool {
    trim(answer) == seq!['y'] || trim(answer) == seq!['Y']
}

/// Whether the user's answer to a confirmation agrees.
pub fn is_affirmative(answer: &str) -> (b: bool)
    ensures
        b == is_yes(answer@),
{
    let t = trim_chars(&chars_of(answer));
    if t.len() == 1 {
        proof {
            if t@[0] == 'y' {
                assert(t@ == seq!['y']);
            }
            if t@[0] == 'Y' {
                assert(t@ == seq!['Y']);
            }
            assert(seq!['y'][0] == 'y');
            assert(seq!['Y'][0] == 'Y');
        }
        t[0] == 'y' || t[0] == 'Y'
    } else {
        proof {
            assert(seq!['y'].len() == 1);
            assert(seq!['Y'].len() == 1);
        }
        false
    }
}

/// Whether `s` holds only whitespace.
pub fn is_blank(s: &str) -> (b: bool)
    ensures
        b == (trim(s@).len() == 0),
{
    trim_chars(&chars_of(s)).len() == 0
}

/// Whether `a` and `b` are the same text, whitespace around them aside.
pub fn same_trimmed(a: &str, b: &str) -> (same: bool)
    ensures
        same == (trim(a@) == trim(b@)),
{
    let ta = string_of(&trim_chars(&chars_of(a)));
    let tb = string_of(&trim_chars(&chars_of(b)));
    ta == tb
}

/// What an editor session gave: the text, or `EditorError` where the editor
/// ended with a failure status.
pub fn editor_result(success: bool, text: String) -> (r: Result<String, DlogError>)
    ensures
        success ==> r == Ok::<String, DlogError>(text),
        !success ==> r is Err && r->Err_0 is EditorError,
{
    if success {
        Ok(text)
    } else {
        Err(DlogError::EditorError)
    }
}

/// First step of `init`: creates the table of entries unless it exists, and
/// returns each directory that has entries. The caller finds out which of
/// them no longer exist and, if the user agrees, has them cleaned up.
pub fn handle_init(conn: &Connection) -> (r: Result<Vec<String>, DlogError>)
    ensures
        ok_or_sql(r),
{
    match initialize_db(conn) {
        Ok(_) => get_distinct_directories(conn),
        Err(e) => Err(e),
    }
}

/// Second step of `init`: removes the entries of the `vanished` directories
/// if `answer` agrees, and returns how many were removed; `None`, with the
/// store untouched, if it does not.
pub fn confirm_cleanup(conn: &Connection, vanished: &[String], answer: &str) -> (r: Result<
    Option<usize>,
    DlogError,
>)
    ensures
        !is_yes(answer@) ==> r == Ok::<Option<usize>, DlogError>(None),
        is_yes(answer@) ==> ok_or_sql(r) && (r is Ok ==> r->Ok_0 is Some),
        is_yes(answer@) && vanished@.len() == 0 ==> r == Ok::<Option<usize>, DlogError>(Some(0)),
{
    if !is_affirmative(answer) {
        return Ok(None);
    }
    match delete_logs_by_directory(conn, vanished) {
        Ok(count) => Ok(Some(count)),
        Err(e) => Err(e),
    }
}

/// Records `content` for the directory `dir`, and returns the id of the new
/// entry. Content that holds only whitespace is not recorded: the result is
/// then `None` and the store is not touched.
pub fn handle_log(conn: &Connection, dir: &str, content: &str, tags: Option<&str>) -> (r: Result<
    Option<i64>,
    DlogError,
>)
    ensures
        ok_or_sql(r),
        trim(content@).len() == 0 ==> r == Ok::<Option<i64>, DlogError>(None),
        trim(content@).len() > 0 && r is Ok ==> r->Ok_0 is Some,
{
    if is_blank(content) {
        return Ok(None);
    }
    match add_log(conn, dir, content, tags) {
        Ok(id) => Ok(Some(id)),
        Err(e) => Err(e),
    }
}

/// The number of entries shown where the user names none.
pub const DEFAULT_LIMIT: u32 = 10;

/// The cap on the entries shown: `num`, or ten where none is given.
pub open spec fn effective_limit(num: Option<u32>) -> u32 {
    match num {
        Some(n) => n,
        None => 10,
    }
}

/// The cap on the entries shown for the user's choice `num`.
pub fn limit_of(num: Option<u32>) -> (limit: u32)
    ensures
        limit == effective_limit(num),
{
    match num {
        Some(n) => n,
        None => DEFAULT_LIMIT,
    }
}

/// The complaint about a date that is not written `YYYY-MM-DD`.
pub open spec fn bad_date_message() -> Seq<char> {
    "Invalid date format. Use YYYY-MM-DD."@
}

/// What follows from reading a date filter: nothing if it was read as a
/// date, else the complaint.
pub fn date_verdict(parses: bool) -> (r: Result<(), DlogError>)
    ensures
        parses ==> r is Ok,
        !parses ==> r is Err && r->Err_0.is_invalid_input(bad_date_message()),
{
    if parses {
        Ok(())
    } else {
        Err(DlogError::InvalidInput(String::from_str("Invalid date format. Use YYYY-MM-DD.")))
    }
}

/// Whether the date filter `date` is acceptable: there is none, or it is a
/// calendar date written `YYYY-MM-DD`.
pub open spec fn date_accepted(date: Option<Seq<char>>) -> bool {
    match date {
        Some(d) => is_calendar_date(d),
        None => true,
    }
}

/// Checks the date filter, if there is one.
pub fn check_date(date: Option<&str>) -> (r: Result<(), DlogError>)
    ensures
        date_accepted(optional_text(date)) ==> r is Ok,
        !date_accepted(optional_text(date)) ==> r is Err && r->Err_0.is_invalid_input(
            bad_date_message(),
        ),
{
    match date {
        Some(d) => date_verdict(date_parses(d)),
        None => Ok(()),
    }
}

/// Retrieves the entries in the scope of the normalized `path` that pass
/// the filters, newest first, at most `num` of them (ten if `num` is absent,
/// all if it is zero). A malformed date is rejected before the store is
/// asked.
pub fn handle_get(
    conn: &Connection,
    path: &str,
    num: Option<u32>,
    recursive: bool,
    tag: Option<&str>,
    date: Option<&str>,
    search: Option<&str>,
) -> (r: Result<Vec<LogEntry>, DlogError>)
    ensures
        date_accepted(optional_text(date)) ==> ok_or_sql(r),
        !date_accepted(optional_text(date)) ==> r is Err && r->Err_0.is_invalid_input(
            bad_date_message(),
        ),
{
    match check_date(date) {
        Ok(_) => fetch_logs(conn, path, recursive, limit_of(num), tag, date, search),
        Err(e) => Err(e),
    }
}

/// What a lookup by id gave: the content, or `LogNotFound` where the store
/// has no such entry.
pub fn found(id: i32, content: Option<String>) -> (r: Result<String, DlogError>)
    ensures
        match content {
            Some(text) => r == Ok::<String, DlogError>(text),
            None => r == Err::<String, DlogError>(DlogError::LogNotFound(id)),
        },
{
    match content {
        Some(text) => Ok(text),
        None => Err(DlogError::LogNotFound(id)),
    }
}

/// Whether `r` is a success, a failure of the store, or `LogNotFound(id)`.
pub open spec fn ok_or_sql_or_missing<T>(r: Result<T, DlogError>, id: i32) -> bool {
    r is Err ==> r->Err_0 is Sql || r->Err_0 == DlogError::LogNotFound(id)
}

/// First step of `fix`: the current content of the entry `id`, for the user
/// to edit.
pub fn handle_fix(conn: &Connection, id: i32) -> (r: Result<String, DlogError>)
    ensures
        ok_or_sql_or_missing(r, id),
{
    match get_log_content(conn, id) {
        Ok(content) => found(id, content),
        Err(e) => Err(e),
    }
}

/// How an edit ended.
#[derive(Debug, PartialEq, Eq, Structural)]
pub enum EditOutcome {
    /// The new content was stored.
    Updated,
    /// The new content is the old one, whitespace around both aside;
    /// nothing was stored.
    NoChange,
}

/// Second step of `fix`: stores `new_content` as the content of the entry
/// `id`, unless it is `old_content` again, whitespace around both aside;
/// then the store is not touched and the outcome is `NoChange`.
pub fn update_content(conn: &Connection, id: i32, old_content: &str, new_content: &str) -> (r:
    Result<EditOutcome, DlogError>)
    ensures
        ok_or_sql(r),
        trim(new_content@) == trim(old_content@) ==> r == Ok::<EditOutcome, DlogError>(
            EditOutcome::NoChange,
        ),
        trim(new_content@) != trim(old_content@) && r is Ok ==> r->Ok_0 == EditOutcome::Updated,
{
    if same_trimmed(new_content, old_content) {
        return Ok(EditOutcome::NoChange);
    }
    match update_log_content(conn, id, new_content) {
        Ok(_) => Ok(EditOutcome::Updated),
        Err(e) => Err(e),
    }
}

/// The entries that a removal is aimed at.
#[derive(Debug, PartialEq, Eq)]
pub struct Deletion {
    /// The ids to remove.
    pub ids: Vec<i32>,
    /// For a recursive removal, the entries found, in the order of `ids`;
    /// empty otherwise.
    pub entries: Vec<LogEntry>,
}

/// The ids of `entries`, in order.
pub open spec fn entry_ids(entries: Seq<LogEntry>) -> Seq<i32> {
    entries.map_values(|e: LogEntry| e.id)
}

/// The ids of `entries`, in order.
pub fn ids_of_entries(entries: &Vec<LogEntry>) -> (ids: Vec<i32>)
    ensures
        ids@ == entry_ids(entries@),
{
    let mut ids: Vec<i32> = Vec::new();
    let mut i: usize = 0;
    while i < entries.len()
        invariant
            i <= entries.len(),
            ids@ == entry_ids(entries@.take(i as int)),
        decreases entries.len() - i,
    {
        ids.push(entries[i].id);
        proof {
            assert(entry_ids(entries@.take(i + 1)) == entry_ids(entries@.take(i as int)).push(
                entries@[i as int].id,
            ));
        }
        i += 1;
    }
    proof {
        assert(entries@.take(entries.len() as int) == entries@);
    }
    ids
}

/// The complaint about a removal that names neither ids nor `recursive`.
pub open spec fn no_target_message() -> Seq<char> {
    "You must provide log IDs or use the --recursive flag."@
}

/// Whether `r` is what the id specification `ids`, if there is one, asks
/// to remove: its ids in ascending order without repeats, or the complaint
/// about it.
pub open spec fn targets_of_spec(ids: Option<Seq<char>>, r: Result<Deletion, DlogError>) -> bool {
    match ids {
        None => r is Err && r->Err_0.is_invalid_input(no_target_message()),
        Some(s) => match id_spec(s) {
            Ok(selected) => {
                &&& r is Ok
                &&& strictly_ascending(r->Ok_0.ids@)
                &&& ids_of(r->Ok_0.ids@) == selected
                &&& r->Ok_0.entries@.len() == 0
            },
            Err(msg) => r is Err && r->Err_0.is_invalid_input(msg),
        },
    }
}

/// Whether `r` is what a search of the store may give as the aim of a
/// recursive removal.
pub open spec fn targets_of_search(r: Result<Deletion, DlogError>) -> bool {
    &&& ok_or_sql(r)
    &&& r is Ok ==> r->Ok_0.ids@ == entry_ids(r->Ok_0.entries@)
}

/// First step of `del`: finds what is to be removed. With `recursive`,
/// every entry at or below the normalized `scope`; otherwise the ids that
/// the specification `ids` selects. Nothing is removed yet.
pub fn handle_del(conn: &Connection, ids: Option<&str>, recursive: bool, scope: &str) -> (r: Result<
    Deletion,
    DlogError,
>)
    ensures
        recursive ==> targets_of_search(r),
        !recursive ==> targets_of_spec(optional_text(ids), r),
{
    if recursive {
        match find_logs_in_path(conn, scope) {
            Ok(entries) => {
                let ids = ids_of_entries(&entries);
                Ok(Deletion { ids, entries })
            },
            Err(e) => Err(e),
        }
    } else {
        match ids {
            Some(s) => match parse_id_range(s) {
                Ok(ids) => Ok(Deletion { ids, entries: Vec::new() }),
                Err(e) => Err(e),
            },
            None => Err(
                DlogError::InvalidInput(
                    String::from_str("You must provide log IDs or use the --recursive flag."),
                ),
            ),
        }
    }
}

/// Second step of `del`: removes the entries with the given ids if `answer`
/// agrees, and returns how many were removed; `None`, with the store
/// untouched, if it does not.
pub fn confirm_delete(conn: &Connection, ids: &[i32], answer: &str) -> (r: Result<
    Option<usize>,
    DlogError,
>)
    ensures
        !is_yes(answer@) ==> r == Ok::<Option<usize>, DlogError>(None),
        is_yes(answer@) ==> ok_or_sql(r) && (r is Ok ==> r->Ok_0 is Some),
        is_yes(answer@) && ids@.len() == 0 ==> r == Ok::<Option<usize>, DlogError>(Some(0)),
{
    if !is_affirmative(answer) {
        return Ok(None);
    }
    match delete_logs_by_id(conn, ids) {
        Ok(count) => Ok(Some(count)),
        Err(e) => Err(e),
    }
}

/// What the caller does after the first step of a command.
#[derive(Debug, PartialEq, Eq)]
pub enum Step {
    /// `init`: find out which of these directories no longer exist; if any,
    /// ask the user and call `confirm_cleanup`.
    CheckDirectories(Vec<String>),
    /// `log` without a message: let the user write one in an editor, then
    /// call `handle_log` with it and these tags.
    Compose { tags: Option<String> },
    /// `log` with a message: the id of the new entry, or `None` where the
    /// message was blank and nothing was recorded.
    Logged(Option<i64>),
    /// `get`: show these entries, with their directories if `recursive`.
    Listing { entries: Vec<LogEntry>, recursive: bool },
    /// `fix`: let the user edit this content, then call `update_content`.
    Edit { id: i32, content: String },
    /// `del`: unless there is nothing to remove, ask the user and call
    /// `confirm_delete`.
    ConfirmDelete(Deletion),
}

/// The path that `command` names: the one given to `get`, else the empty
/// path, which stands for the current directory.
pub open spec fn requested(command: Commands) -> Seq<char> {
    match command {
        Commands::Get { path: Some(p), .. } => p@,
        _ => Seq::empty(),
    }
}

/// The path that `command` names, to be normalized into its scope.
pub fn requested_path(command: &Commands) -> (path: String)
    ensures
        path@ == requested(*command),
{
    match command {
        Commands::Get { path: Some(p), .. } => p.clone(),
        _ => String::new(),
    }
}

/// Whether `r` is a fitting result of the first step of `command`.
pub open spec fn step_fits(command: Commands, r: Result<Step, DlogError>) -> bool {
    match command {
        Commands::Init => ok_or_sql(r) && (r is Ok ==> r->Ok_0 is CheckDirectories),
        Commands::Log { message: None, tags } => r == Ok::<Step, DlogError>(
            Step::Compose { tags },
        ),
        Commands::Log { message: Some(m), tags } => {
            &&& ok_or_sql(r)
            &&& r is Ok ==> r->Ok_0 is Logged
            &&& trim(m@).len() == 0 ==> r == Ok::<Step, DlogError>(Step::Logged(None))
            &&& trim(m@).len() > 0 && r is Ok ==> r->Ok_0->Logged_0 is Some
        },
        Commands::Get { path, num, recursive, tag, date, search } => {
            if date_accepted(text_of(date)) {
                &&& ok_or_sql(r)
                &&& r is Ok ==> r->Ok_0 is Listing && r->Ok_0->Listing_recursive == recursive
            } else {
                r is Err && r->Err_0.is_invalid_input(bad_date_message())
            }
        },
        Commands::Fix { id } => {
            &&& ok_or_sql_or_missing(r, id)
            &&& r is Ok ==> r->Ok_0 is Edit && r->Ok_0->Edit_id == id
        },
        Commands::Del { ids, recursive } => {
            &&& r is Ok ==> r->Ok_0 is ConfirmDelete
            &&& if recursive {
                targets_of_search(aim_of(r))
            } else {
                targets_of_spec(text_of(ids), aim_of(r))
            }
        },
    }
}

/// The aim of a removal, taken out of the step that carries it.
pub open spec fn aim_of(r: Result<Step, DlogError>) -> Result<Deletion, DlogError> {
    match r {
        Ok(Step::ConfirmDelete(aim)) => Ok(aim),
        Ok(_) => Ok(arbitrary()),
        Err(e) => Err(e),
    }
}

/// Runs the first step of `command` against the store behind `conn`, where
/// `scope` is the normal form of the path that the command names, and says
/// what the caller does next.
pub fn run_command(conn: &Connection, command: Commands, scope: &str) -> (r: Result<
    Step,
    DlogError,
>)
    ensures
        step_fits(command, r),
{
    match command {
        Commands::Init => match handle_init(conn) {
            Ok(directories) => Ok(Step::CheckDirectories(directories)),
            Err(e) => Err(e),
        },
        Commands::Log { message: None, tags } => Ok(Step::Compose { tags }),
        Commands::Log { message: Some(m), tags } => {
            match handle_log(conn, scope, m.as_str(), as_text(&tags)) {
                Ok(id) => Ok(Step::Logged(id)),
                Err(e) => Err(e),
            }
        },
        Commands::Get { path, num, recursive, tag, date, search } => {
            match handle_get(
                conn,
                scope,
                num,
                recursive,
                as_text(&tag),
                as_text(&date),
                as_text(&search),
            ) {
                Ok(entries) => Ok(Step::Listing { entries, recursive }),
                Err(e) => Err(e),
            }
        },
        Commands::Fix { id } => match handle_fix(conn, id) {
            Ok(content) => Ok(Step::Edit { id, content }),
            Err(e) => Err(e),
        },
        Commands::Del { ids, recursive } => match handle_del(
            conn,
            as_text(&ids),
            recursive,
            scope,
        ) {
            Ok(aim) => Ok(Step::ConfirmDelete(aim)),
            Err(e) => Err(e),
        },
    }
}

} // verus!
