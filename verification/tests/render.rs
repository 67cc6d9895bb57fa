use dlog::models::LogEntry;
use dlog::render::{
    day_text, entry_lines, removal_line, render_entry, render_listing, render_removal, rule,
    time_text,
};

fn entry(id: i32, timestamp: &str, content: &str, tags: Option<&str>, directory: &str) -> LogEntry {
    LogEntry {
        id,
        timestamp: timestamp.to_string(),
        content: content.to_string(),
        tags: tags.map(|t| t.to_string()),
        directory: directory.to_string(),
    }
}

#[test]
fn rule_is_forty_dashes() {
    assert_eq!(rule(), "─".repeat(40));
}

#[test]
fn entry_without_tags_and_path() {
    let e = entry(7, "t", "hello\n\n", None, "/a");
    let lines = entry_lines(&e, "2024-01-15 10:00:00", false);
    assert_eq!(lines, vec!["[7] 2024-01-15 10:00:00 ".to_string(), "hello".to_string(), rule()]);
}

#[test]
fn entry_with_tags_and_path() {
    let e = entry(12, "t", "  indented\nsecond line \t", Some("bug,ui"), "/work/p");
    let lines = entry_lines(&e, "2024-01-15 10:00:00", true);
    assert_eq!(
        lines,
        vec![
            "[12] 2024-01-15 10:00:00  | Tags: bug,ui".to_string(),
            "  └─ Path: /work/p".to_string(),
            "  indented\nsecond line".to_string(),
            rule(),
        ]
    );
}

#[test]
fn stored_time_is_shown_in_utc() {
    assert_eq!(time_text("2024-01-15T10:20:30+00:00"), "2024-01-15 10:20:30");
    assert_eq!(time_text("2024-01-15T10:20:30.987654321+00:00"), "2024-01-15 10:20:30");
    assert_eq!(time_text("2024-01-15T23:30:00-02:00"), "2024-01-16 01:30:00");
    assert_eq!(time_text("2024-01-15 10:20:30Z"), "2024-01-15 10:20:30");
}

#[test]
fn stored_day_is_shown_in_utc() {
    assert_eq!(day_text("2024-01-15T10:20:30+00:00"), "2024-01-15");
    assert_eq!(day_text("2024-01-15T23:30:00-02:00"), "2024-01-16");
}

#[test]
fn unreadable_time_is_shown_as_a_current_time() {
    let shown = time_text("not a time");
    assert!(chrono::NaiveDateTime::parse_from_str(&shown, "%Y-%m-%d %H:%M:%S").is_ok());
    let shown = day_text("");
    assert!(chrono::NaiveDate::parse_from_str(&shown, "%Y-%m-%d").is_ok());
}

#[test]
fn entry_is_rendered_with_its_own_time() {
    let e = entry(3, "2024-02-29T08:09:10+00:00", "leap", Some("x"), "/a");
    assert_eq!(
        render_entry(&e, false),
        vec!["[3] 2024-02-29 08:09:10  | Tags: x".to_string(), "leap".to_string(), rule()]
    );
}

#[test]
fn listing_of_nothing_says_so() {
    assert_eq!(render_listing(&Vec::new(), true), vec!["No logs found.".to_string()]);
}

#[test]
fn listing_shows_each_entry_in_turn() {
    let entries = vec![
        entry(2, "2024-01-16T00:00:00+00:00", "second", None, "/a/b"),
        entry(1, "2024-01-15T00:00:00+00:00", "first", Some("t"), "/a"),
    ];
    assert_eq!(
        render_listing(&entries, true),
        vec![
            "[2] 2024-01-16 00:00:00 ".to_string(),
            "  └─ Path: /a/b".to_string(),
            "second".to_string(),
            rule(),
            "[1] 2024-01-15 00:00:00  | Tags: t".to_string(),
            "  └─ Path: /a".to_string(),
            "first".to_string(),
            rule(),
        ]
    );
}

#[test]
fn removal_lines() {
    assert_eq!(removal_line(5, "2024-01-15"), "- ID: 5, Date: 2024-01-15");
    let e = entry(9, "2024-03-01T12:00:00+00:00", "x", None, "/a");
    assert_eq!(render_removal(&e), "- ID: 9, Date: 2024-03-01");
}
