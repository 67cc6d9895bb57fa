use dlog::commands::{
    confirm_cleanup, confirm_delete, handle_del, handle_fix, handle_get, handle_init, handle_log,
    update_content, EditOutcome,
};
use dlog::db::{
    add_log, add_log_at, delete_logs_by_directory, delete_logs_by_id, fetch_logs,
    find_logs_in_path, get_distinct_directories, get_log_content, initialize_db,
    update_log_content,
};
use dlog::error::DlogError;
use rusqlite::Connection;

fn store() -> Connection {
    let conn = Connection::open_in_memory().unwrap();
    initialize_db(&conn).unwrap();
    conn
}

fn count(conn: &Connection) -> i64 {
    conn.query_row("SELECT COUNT(*) FROM logs", [], |row| row.get(0)).unwrap()
}

fn at(conn: &Connection, timestamp: &str, dir: &str, content: &str, tags: Option<&str>) -> i32 {
    add_log_at(conn, timestamp, dir, content, tags).unwrap() as i32
}

#[test]
fn initialize_is_idempotent() {
    let conn = store();
    add_log(&conn, "/a", "kept", None).unwrap();
    initialize_db(&conn).unwrap();
    assert_eq!(count(&conn), 1);
}

#[test]
fn append_then_fetch_round_trip() {
    let conn = store();
    add_log(&conn, "/work/project", "fixed the build", Some("build,ci")).unwrap();
    let found = fetch_logs(&conn, "/work/project", false, 0, None, None, None).unwrap();
    assert_eq!(found.len(), 1);
    assert_eq!(found[0].content, "fixed the build");
    assert_eq!(found[0].tags.as_deref(), Some("build,ci"));
    assert_eq!(found[0].directory, "/work/project");
}

#[test]
fn append_without_tags_stores_none() {
    let conn = store();
    add_log(&conn, "/a", "plain", None).unwrap();
    let found = fetch_logs(&conn, "/a", false, 0, None, None, None).unwrap();
    assert_eq!(found.len(), 1);
    assert_eq!(found[0].tags, None);
}

#[test]
fn append_returns_the_assigned_id() {
    let conn = store();
    let first = add_log(&conn, "/a", "one", None).unwrap();
    let second = add_log(&conn, "/a", "two", None).unwrap();
    assert!(second > first);
    assert_eq!(get_log_content(&conn, second as i32).unwrap().as_deref(), Some("two"));
}

#[test]
fn ids_are_not_reused_after_deletion() {
    let conn = store();
    add_log(&conn, "/a", "one", None).unwrap();
    let last = add_log(&conn, "/a", "two", None).unwrap();
    assert_eq!(delete_logs_by_id(&conn, &[last as i32]).unwrap(), 1);
    let next = add_log(&conn, "/a", "three", None).unwrap();
    assert!(next > last);
}

#[test]
fn timestamp_of_a_new_entry_is_rfc3339() {
    let conn = store();
    add_log(&conn, "/a", "now", None).unwrap();
    let found = fetch_logs(&conn, "/a", false, 0, None, None, None).unwrap();
    assert!(chrono::DateTime::parse_from_rfc3339(&found[0].timestamp).is_ok());
}

#[test]
fn exact_scope_leaves_out_subdirectories() {
    let conn = store();
    at(&conn, "2024-01-15T10:00:00+00:00", "/a", "top", None);
    at(&conn, "2024-01-15T11:00:00+00:00", "/a/b", "below", None);
    let found = fetch_logs(&conn, "/a", false, 0, None, None, None).unwrap();
    assert_eq!(found.len(), 1);
    assert_eq!(found[0].content, "top");
}

#[test]
fn recursive_scope_respects_the_path_boundary() {
    let conn = store();
    at(&conn, "2024-01-15T10:00:00+00:00", "/a", "one", None);
    at(&conn, "2024-01-15T11:00:00+00:00", "/a/b", "two", None);
    at(&conn, "2024-01-15T12:00:00+00:00", "/a/b/c", "three", None);
    at(&conn, "2024-01-15T13:00:00+00:00", "/ab", "sibling", None);
    let found = fetch_logs(&conn, "/a", true, 0, None, None, None).unwrap();
    let dirs: Vec<&str> = found.iter().map(|e| e.directory.as_str()).collect();
    assert_eq!(dirs, vec!["/a/b/c", "/a/b", "/a"]);
}

#[test]
fn recursive_scope_takes_wildcard_characters_literally() {
    let conn = store();
    at(&conn, "2024-01-15T10:00:00+00:00", "/a_b/c", "literal", None);
    at(&conn, "2024-01-15T11:00:00+00:00", "/axb/c", "other", None);
    at(&conn, "2024-01-15T12:00:00+00:00", "/A_B/c", "upper", None);
    let found = fetch_logs(&conn, "/a_b", true, 0, None, None, None).unwrap();
    assert_eq!(found.len(), 1);
    assert_eq!(found[0].content, "literal");
}

#[test]
fn recursive_scope_from_the_root_finds_everything() {
    let conn = store();
    at(&conn, "2024-01-15T10:00:00+00:00", "/", "root", None);
    at(&conn, "2024-01-15T11:00:00+00:00", "/a", "a", None);
    at(&conn, "2024-01-15T12:00:00+00:00", "/a/b", "b", None);
    assert_eq!(fetch_logs(&conn, "/", true, 0, None, None, None).unwrap().len(), 3);
}

#[test]
fn newest_comes_first() {
    let conn = store();
    at(&conn, "2024-01-15T10:00:00+00:00", "/a", "middle", None);
    at(&conn, "2024-01-14T10:00:00+00:00", "/a", "oldest", None);
    at(&conn, "2024-01-16T10:00:00+00:00", "/a", "newest", None);
    let found = fetch_logs(&conn, "/a", false, 0, None, None, None).unwrap();
    let contents: Vec<&str> = found.iter().map(|e| e.content.as_str()).collect();
    assert_eq!(contents, vec!["newest", "middle", "oldest"]);
}

#[test]
fn limit_caps_and_zero_means_all() {
    let conn = store();
    for day in 10..15 {
        at(&conn, &format!("2024-01-{}T10:00:00+00:00", day), "/a", "note", None);
    }
    assert_eq!(fetch_logs(&conn, "/a", false, 2, None, None, None).unwrap().len(), 2);
    assert_eq!(fetch_logs(&conn, "/a", false, 0, None, None, None).unwrap().len(), 5);
    let newest = fetch_logs(&conn, "/a", false, 1, None, None, None).unwrap();
    assert_eq!(newest[0].timestamp, "2024-01-14T10:00:00+00:00");
}

#[test]
fn tag_filter_matches_whole_tokens_only() {
    let conn = store();
    at(&conn, "2024-01-15T10:00:00+00:00", "/a", "alone", Some("test"));
    at(&conn, "2024-01-15T11:00:00+00:00", "/a", "first", Some("test,other"));
    at(&conn, "2024-01-15T12:00:00+00:00", "/a", "middle", Some("x,test,y"));
    at(&conn, "2024-01-15T13:00:00+00:00", "/a", "last", Some("other,test"));
    at(&conn, "2024-01-15T14:00:00+00:00", "/a", "longer", Some("testing"));
    at(&conn, "2024-01-15T15:00:00+00:00", "/a", "inside", Some("x,integration-test"));
    at(&conn, "2024-01-15T16:00:00+00:00", "/a", "untagged", None);
    let found = fetch_logs(&conn, "/a", false, 0, Some("test"), None, None).unwrap();
    let contents: Vec<&str> = found.iter().map(|e| e.content.as_str()).collect();
    assert_eq!(contents, vec!["last", "middle", "first", "alone"]);
}

#[test]
fn tag_filter_takes_wildcard_characters_literally() {
    let conn = store();
    at(&conn, "2024-01-15T10:00:00+00:00", "/a", "plain", Some("test"));
    at(&conn, "2024-01-15T11:00:00+00:00", "/a", "percent", Some("te%"));
    let found = fetch_logs(&conn, "/a", false, 0, Some("te%"), None, None).unwrap();
    assert_eq!(found.len(), 1);
    assert_eq!(found[0].content, "percent");
}

#[test]
fn date_filter_matches_the_day_whatever_the_time() {
    let conn = store();
    at(&conn, "2024-01-14T23:59:59+00:00", "/a", "day before", None);
    at(&conn, "2024-01-15T00:00:00+00:00", "/a", "midnight", None);
    at(&conn, "2024-01-15T12:30:00.123456+00:00", "/a", "noon", None);
    at(&conn, "2024-01-15T23:59:59+00:00", "/a", "late", None);
    at(&conn, "2024-01-16T00:00:00+00:00", "/a", "day after", None);
    let found = fetch_logs(&conn, "/a", false, 0, None, Some("2024-01-15"), None).unwrap();
    let contents: Vec<&str> = found.iter().map(|e| e.content.as_str()).collect();
    assert_eq!(contents, vec!["late", "noon", "midnight"]);
}

#[test]
fn keyword_filter_ignores_case_and_looks_at_content_and_tags() {
    let conn = store();
    at(&conn, "2024-01-15T10:00:00+00:00", "/a", "An ERROR occurred", None);
    at(&conn, "2024-01-15T11:00:00+00:00", "/a", "all fine", Some("Error-handling"));
    at(&conn, "2024-01-15T12:00:00+00:00", "/a", "nothing here", Some("misc"));
    let found = fetch_logs(&conn, "/a", false, 0, None, None, Some("error")).unwrap();
    let contents: Vec<&str> = found.iter().map(|e| e.content.as_str()).collect();
    assert_eq!(contents, vec!["all fine", "An ERROR occurred"]);
}

#[test]
fn keyword_filter_takes_wildcard_characters_literally() {
    let conn = store();
    at(&conn, "2024-01-15T10:00:00+00:00", "/a", "100% done", None);
    at(&conn, "2024-01-15T11:00:00+00:00", "/a", "100 apples", None);
    let found = fetch_logs(&conn, "/a", false, 0, None, None, Some("100%")).unwrap();
    assert_eq!(found.len(), 1);
    assert_eq!(found[0].content, "100% done");
}

#[test]
fn filters_combine_with_and() {
    let conn = store();
    at(&conn, "2024-01-15T10:00:00+00:00", "/a", "fix crash", Some("bug"));
    at(&conn, "2024-01-15T11:00:00+00:00", "/a", "fix typo", Some("docs"));
    at(&conn, "2024-01-16T10:00:00+00:00", "/a", "fix crash again", Some("bug"));
    at(&conn, "2024-01-15T12:00:00+00:00", "/b", "fix crash elsewhere", Some("bug"));
    let found =
        fetch_logs(&conn, "/a", false, 0, Some("bug"), Some("2024-01-15"), Some("CRASH")).unwrap();
    assert_eq!(found.len(), 1);
    assert_eq!(found[0].content, "fix crash");
}

#[test]
fn fetch_with_no_match_is_empty_not_an_error() {
    let conn = store();
    assert!(fetch_logs(&conn, "/nowhere", true, 10, None, None, None).unwrap().is_empty());
}

#[test]
fn fetch_without_a_table_is_a_store_error() {
    let conn = Connection::open_in_memory().unwrap();
    let r = fetch_logs(&conn, "/a", false, 0, None, None, None);
    assert!(matches!(r, Err(DlogError::Sql(_))));
}

#[test]
fn content_of_a_known_and_an_unknown_id() {
    let conn = store();
    let id = at(&conn, "2024-01-15T10:00:00+00:00", "/a", "hello", None);
    assert_eq!(get_log_content(&conn, id).unwrap().as_deref(), Some("hello"));
    assert_eq!(get_log_content(&conn, id + 1).unwrap(), None);
}

#[test]
fn update_replaces_the_content() {
    let conn = store();
    let id = at(&conn, "2024-01-15T10:00:00+00:00", "/a", "before", None);
    assert_eq!(update_log_content(&conn, id, "after").unwrap(), 1);
    assert_eq!(get_log_content(&conn, id).unwrap().as_deref(), Some("after"));
    assert_eq!(update_log_content(&conn, id + 1, "nobody").unwrap(), 0);
}

#[test]
fn delete_by_no_ids_returns_zero_and_changes_nothing() {
    let conn = store();
    at(&conn, "2024-01-15T10:00:00+00:00", "/a", "kept", None);
    assert_eq!(delete_logs_by_id(&conn, &[]).unwrap(), 0);
    assert_eq!(count(&conn), 1);
}

#[test]
fn delete_by_no_ids_does_not_touch_the_store() {
    let conn = Connection::open_in_memory().unwrap();
    assert_eq!(delete_logs_by_id(&conn, &[]).unwrap(), 0);
    assert_eq!(delete_logs_by_directory(&conn, &[]).unwrap(), 0);
}

#[test]
fn delete_of_an_unknown_id_returns_zero() {
    let conn = store();
    let id = at(&conn, "2024-01-15T10:00:00+00:00", "/a", "kept", None);
    assert_eq!(delete_logs_by_id(&conn, &[id + 100]).unwrap(), 0);
    assert_eq!(count(&conn), 1);
}

#[test]
fn delete_counts_only_what_existed() {
    let conn = store();
    let a = at(&conn, "2024-01-15T10:00:00+00:00", "/a", "one", None);
    let b = at(&conn, "2024-01-15T11:00:00+00:00", "/a", "two", None);
    let c = at(&conn, "2024-01-15T12:00:00+00:00", "/a", "three", None);
    assert_eq!(delete_logs_by_id(&conn, &[a, c, c + 50]).unwrap(), 2);
    assert_eq!(get_log_content(&conn, b).unwrap().as_deref(), Some("two"));
    assert_eq!(count(&conn), 1);
}

#[test]
fn find_in_path_is_recursive_with_boundary() {
    let conn = store();
    at(&conn, "2024-01-15T10:00:00+00:00", "/p", "one", None);
    at(&conn, "2024-01-15T11:00:00+00:00", "/p/q", "two", None);
    at(&conn, "2024-01-15T12:00:00+00:00", "/pq", "sibling", None);
    let mut found: Vec<String> =
        find_logs_in_path(&conn, "/p").unwrap().into_iter().map(|e| e.directory).collect();
    found.sort();
    assert_eq!(found, vec!["/p".to_string(), "/p/q".to_string()]);
}

#[test]
fn distinct_directories_lists_each_once() {
    let conn = store();
    at(&conn, "2024-01-15T10:00:00+00:00", "/a", "one", None);
    at(&conn, "2024-01-15T11:00:00+00:00", "/a", "two", None);
    at(&conn, "2024-01-15T12:00:00+00:00", "/b", "three", None);
    let mut dirs = get_distinct_directories(&conn).unwrap();
    dirs.sort();
    assert_eq!(dirs, vec!["/a".to_string(), "/b".to_string()]);
}

#[test]
fn delete_by_directory_is_exact_not_by_prefix() {
    let conn = store();
    at(&conn, "2024-01-15T10:00:00+00:00", "/a", "one", None);
    at(&conn, "2024-01-15T11:00:00+00:00", "/a", "two", None);
    at(&conn, "2024-01-15T12:00:00+00:00", "/a/b", "below", None);
    at(&conn, "2024-01-15T13:00:00+00:00", "/c", "other", None);
    let dirs = vec!["/a".to_string(), "/gone".to_string()];
    assert_eq!(delete_logs_by_directory(&conn, &dirs).unwrap(), 2);
    let mut left = get_distinct_directories(&conn).unwrap();
    left.sort();
    assert_eq!(left, vec!["/a/b".to_string(), "/c".to_string()]);
}

#[test]
fn init_step_creates_the_table_and_lists_directories() {
    let conn = Connection::open_in_memory().unwrap();
    assert!(handle_init(&conn).unwrap().is_empty());
    add_log(&conn, "/a", "one", None).unwrap();
    assert_eq!(handle_init(&conn).unwrap(), vec!["/a".to_string()]);
}

#[test]
fn cleanup_happens_only_on_yes() {
    let conn = store();
    at(&conn, "2024-01-15T10:00:00+00:00", "/gone", "one", None);
    let vanished = vec!["/gone".to_string()];
    assert_eq!(confirm_cleanup(&conn, &vanished, "n\n").unwrap(), None);
    assert_eq!(confirm_cleanup(&conn, &vanished, "\n").unwrap(), None);
    assert_eq!(confirm_cleanup(&conn, &vanished, "yes\n").unwrap(), None);
    assert_eq!(count(&conn), 1);
    assert_eq!(confirm_cleanup(&conn, &vanished, " Y \n").unwrap(), Some(1));
    assert_eq!(count(&conn), 0);
}

#[test]
fn blank_log_is_skipped() {
    let conn = store();
    assert_eq!(handle_log(&conn, "/a", "  \n\t ", Some("x")).unwrap(), None);
    assert_eq!(handle_log(&conn, "/a", "", None).unwrap(), None);
    assert_eq!(count(&conn), 0);
    assert!(handle_log(&conn, "/a", " real ", None).unwrap().is_some());
    assert_eq!(count(&conn), 1);
}

#[test]
fn get_rejects_a_malformed_date_before_asking_the_store() {
    let conn = Connection::open_in_memory().unwrap();
    for bad in ["15-01-2024", "2024/01/15", "2024-13-01", "2024-02-30", "yesterday", ""] {
        match handle_get(&conn, "/a", None, false, None, Some(bad), None) {
            Err(DlogError::InvalidInput(msg)) => {
                assert_eq!(msg, "Invalid date format. Use YYYY-MM-DD.")
            }
            other => panic!("expected InvalidInput for {:?}, got {:?}", bad, other),
        }
    }
}

#[test]
fn get_defaults_to_ten_entries() {
    let conn = store();
    for day in 10..25 {
        at(&conn, &format!("2024-01-{}T10:00:00+00:00", day), "/a", "note", None);
    }
    assert_eq!(handle_get(&conn, "/a", None, false, None, None, None).unwrap().len(), 10);
    assert_eq!(handle_get(&conn, "/a", Some(3), false, None, None, None).unwrap().len(), 3);
    assert_eq!(handle_get(&conn, "/a", Some(0), false, None, None, None).unwrap().len(), 15);
    let day = handle_get(&conn, "/a", None, false, None, Some("2024-01-12"), None).unwrap();
    assert_eq!(day.len(), 1);
}

#[test]
fn fix_reports_an_unknown_id() {
    let conn = store();
    let id = at(&conn, "2024-01-15T10:00:00+00:00", "/a", "text", None);
    assert_eq!(handle_fix(&conn, id).unwrap(), "text");
    assert!(matches!(handle_fix(&conn, id + 7), Err(DlogError::LogNotFound(n)) if n == id + 7));
}

#[test]
fn update_with_same_trimmed_content_reports_no_change() {
    let conn = store();
    let id = at(&conn, "2024-01-15T10:00:00+00:00", "/a", "same text\n", None);
    let old = handle_fix(&conn, id).unwrap();
    assert_eq!(update_content(&conn, id, &old, "  same text  ").unwrap(), EditOutcome::NoChange);
    assert_eq!(get_log_content(&conn, id).unwrap().as_deref(), Some("same text\n"));
    assert_eq!(update_content(&conn, id, &old, "new text").unwrap(), EditOutcome::Updated);
    assert_eq!(get_log_content(&conn, id).unwrap().as_deref(), Some("new text"));
}

#[test]
fn del_without_ids_or_recursive_is_rejected() {
    let conn = store();
    match handle_del(&conn, None, false, "/a") {
        Err(DlogError::InvalidInput(msg)) => {
            assert_eq!(msg, "You must provide log IDs or use the --recursive flag.")
        }
        other => panic!("expected InvalidInput, got {:?}", other),
    }
}

#[test]
fn del_by_spec_aims_at_the_parsed_ids() {
    let conn = store();
    let aim = handle_del(&conn, Some("3,1-2,2"), false, "/a").unwrap();
    assert_eq!(aim.ids, vec![1, 2, 3]);
    assert!(aim.entries.is_empty());
    assert!(matches!(handle_del(&conn, Some("4-"), false, "/a"), Err(DlogError::InvalidInput(_))));
    assert!(handle_del(&conn, Some(""), false, "/a").unwrap().ids.is_empty());
}

#[test]
fn del_recursive_aims_at_the_scope() {
    let conn = store();
    let a = at(&conn, "2024-01-15T10:00:00+00:00", "/p", "one", None);
    let b = at(&conn, "2024-01-15T11:00:00+00:00", "/p/q", "two", None);
    at(&conn, "2024-01-15T12:00:00+00:00", "/pq", "sibling", None);
    let aim = handle_del(&conn, Some("ignored"), true, "/p").unwrap();
    let mut ids = aim.ids.clone();
    ids.sort();
    assert_eq!(ids, vec![a, b]);
    let from_entries: Vec<i32> = aim.entries.iter().map(|e| e.id).collect();
    assert_eq!(from_entries, aim.ids);
}

#[test]
fn deletion_happens_only_on_yes() {
    let conn = store();
    let a = at(&conn, "2024-01-15T10:00:00+00:00", "/a", "one", None);
    let b = at(&conn, "2024-01-15T11:00:00+00:00", "/a", "two", None);
    assert_eq!(confirm_delete(&conn, &[a, b], "no").unwrap(), None);
    assert_eq!(confirm_delete(&conn, &[a, b], "").unwrap(), None);
    assert_eq!(count(&conn), 2);
    assert_eq!(confirm_delete(&conn, &[a, b, b + 1], "y\n").unwrap(), Some(2));
    assert_eq!(count(&conn), 0);
}
