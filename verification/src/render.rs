//! Entries as lines of text, for a caller to print.

use crate::clock::{display_time, now_rfc3339, shown_time};
use crate::models::LogEntry;
use crate::text::{
    chars_of, decimal, decimal_chars, find_char, first_index, slice_of, string_of, text_of,
    trim_end, trim_end_chars, views_of_strings,
};
use vstd::prelude::*;
use vstd::string::StringExecFns;

verus! {

/// The number of characters in the rule below an entry.
pub const RULE_WIDTH: usize = 40;

/// The rule printed below an entry.
pub open spec fn rule_text() -> Seq<char> {
    Seq::new(40, |i: int| '─')
}

/// How the tags of an entry are shown: not at all where it has none.
pub open spec fn tags_text(tags: Option<Seq<char>>) -> Seq<char> {
    match tags {
        Some(t) => " | Tags: "@ + t,
        None => Seq::empty(),
    }
}

/// The first line of an entry: id, time of creation, and tags.
pub open spec fn header_text(id: int, time: Seq<char>, tags: Option<Seq<char>>) -> Seq<char> {
    "["@ + decimal(id) + "] "@ + time + " "@ + tags_text(tags)
}

/// The line that names an entry's directory.
pub open spec fn path_text(directory: Seq<char>) -> Seq<char> {
    "  └─ Path: "@ + directory
}

/// The lines of one entry, where `time` is its time of creation as shown:
/// the header, the directory if `recursive`, the content without trailing
/// whitespace, and a rule.
pub open spec fn entry_text(entry: LogEntry, time: Seq<char>, recursive: bool) -> Seq<Seq<char>> {
    seq![header_text(entry.id as int, time, text_of(entry.tags))] + (if recursive {
        seq![path_text(entry.directory@)]
    } else {
        Seq::empty()
    }) + seq![trim_end(entry.content@), rule_text()]
}

/// The line for one entry in the list of entries about to be removed.
pub open spec fn removal_text(id: int, day: Seq<char>) -> Seq<char> {
    "- ID: "@ + decimal(id) + ", Date: "@ + day
}

/// The rule printed below an entry.
pub fn rule() -> (out: String)
    ensures
        out@ == rule_text(),
{
    let mut out = String::new();
    let mut i: usize = 0;
    while i < RULE_WIDTH
        invariant
            i <= RULE_WIDTH,
            out@ == Seq::new(i as nat, |k: int| '─'),
        decreases RULE_WIDTH - i,
    {
        out.push('─');
        proof {
            assert(Seq::new((i + 1) as nat, |k: int| '─') =~= Seq::new(i as nat, |k: int| '─').push(
                '─',
            ));
        }
        i += 1;
    }
    out
}

/// The lines of `entry`, given its time of creation as shown.
pub fn entry_lines(entry: &LogEntry, time: &str, recursive: bool) -> (lines: Vec<String>)
    ensures
        views_of_strings(lines@) == entry_text(*entry, time@, recursive),
{
    let number = string_of(&decimal_chars(entry.id));
    let mut header = String::from_str("[").concat(number.as_str()).concat("] ").concat(time).concat(
        " ",
    );
    match &entry.tags {
        Some(t) => {
            header.append(" | Tags: ");
            header.append(t.as_str());
        },
        None => {},
    }
    proof {
        assert(header@ =~= header_text(entry.id as int, time@, text_of(entry.tags)));
    }
    let mut lines: Vec<String> = Vec::new();
    lines.push(header);
    if recursive {
        lines.push(String::from_str("  └─ Path: ").concat(entry.directory.as_str()));
    }
    lines.push(string_of(&trim_end_chars(&chars_of(entry.content.as_str()))));
    lines.push(rule());
    proof {
        assert(views_of_strings(lines@) =~= entry_text(*entry, time@, recursive));
    }
    lines
}

/// The time of creation `timestamp` as shown. A timestamp that cannot be
/// read is shown as the current time.
pub fn time_text(timestamp: &str) -> (out: String)
    ensures
        shown_time(timestamp@) is Some ==> out@ == shown_time(timestamp@)->Some_0,
{
    match display_time(timestamp) {
        Some(text) => text,
        None => {
            let now = now_rfc3339();
            match display_time(now.as_str()) {
                Some(text) => text,
                None => now,
            }
        },
    }
}

/// The day of a time as shown: the text before its first space.
pub open spec fn day_of(time: Seq<char>) -> Seq<char> {
    time.take(first_index(time, ' '))
}

/// The day of creation `timestamp` as shown. A timestamp that cannot be
/// read is shown as the current day.
pub fn day_text(timestamp: &str) -> (out: String)
    ensures
        shown_time(timestamp@) is Some ==> out@ == day_of(shown_time(timestamp@)->Some_0),
{
    let time = time_text(timestamp);
    let chars = chars_of(time.as_str());
    match find_char(&chars, ' ') {
        Some(end) => {
            proof {
                assert(chars@.take(end as int) == chars@.subrange(0, end as int));
            }
            string_of(&slice_of(&chars, 0, end))
        },
        None => {
            proof {
                assert(chars@.take(chars.len() as int) == chars@);
            }
            time
        },
    }
}

/// The lines of `entry`.
pub fn render_entry(entry: &LogEntry, recursive: bool) -> (lines: Vec<String>)
    ensures
        shown_time(entry.timestamp@) is Some ==> views_of_strings(lines@) == entry_text(
            *entry,
            shown_time(entry.timestamp@)->Some_0,
            recursive,
        ),
{
    let time = time_text(entry.timestamp.as_str());
    entry_lines(entry, time.as_str(), recursive)
}

/// The line for `entry` in the list of entries about to be removed, given
/// its day of creation as shown.
pub fn removal_line(id: i32, day: &str) -> (line: String)
    ensures
        line@ == removal_text(id as int, day@),
{
    let number = string_of(&decimal_chars(id));
    String::from_str("- ID: ").concat(number.as_str()).concat(", Date: ").concat(day)
}

/// The line for `entry` in the list of entries about to be removed.
pub fn render_removal(entry: &LogEntry) -> (line: String)
    ensures
        shown_time(entry.timestamp@) is Some ==> line@ == removal_text(
            entry.id as int,
            day_of(shown_time(entry.timestamp@)->Some_0),
        ),
{
    let day = day_text(entry.timestamp.as_str());
    removal_line(entry.id, day.as_str())
}

/// Whether the time of creation of every entry can be read.
pub open spec fn all_readable(entries: Seq<LogEntry>) -> bool {
    forall|i: int| 0 <= i < entries.len() ==> shown_time(#[trigger] entries[i].timestamp@) is Some
}

/// The lines of `entries`, one entry after the other.
pub open spec fn listing_text(entries: Seq<LogEntry>, recursive: bool) -> Seq<Seq<char>>
    decreases entries.len(),
{
    if entries.len() == 0 {
        Seq::empty()
    } else {
        listing_text(entries.drop_last(), recursive) + entry_text(
            entries.last(),
            shown_time(entries.last().timestamp@)->Some_0,
            recursive,
        )
    }
}

/// The lines that show the result of a retrieval: those of each entry in
/// turn, or a single line that says that there are none.
pub fn render_listing(entries: &Vec<LogEntry>, recursive: bool) -> (lines: Vec<String>)
    ensures
        entries@.len() == 0 ==> views_of_strings(lines@) == seq!["No logs found."@],
        entries@.len() > 0 && all_readable(entries@) ==> views_of_strings(lines@) == listing_text(
            entries@,
            recursive,
        ),
{
    let mut lines: Vec<String> = Vec::new();
    if entries.len() == 0 {
        lines.push(String::from_str("No logs found."));
        proof {
            assert(views_of_strings(lines@) =~= seq!["No logs found."@]);
        }
        return lines;
    }
    let mut i: usize = 0;
    while i < entries.len()
        invariant
            i <= entries.len(),
            all_readable(entries@) ==> views_of_strings(lines@) == listing_text(
                entries@.take(i as int),
                recursive,
            ),
        decreases entries.len() - i,
    {
        let ghost before = lines@;
        let mut more = render_entry(&entries[i], recursive);
        let ghost added = more@;
        lines.append(&mut more);
        proof {
            if all_readable(entries@) {
                let done = entries@.take(i as int);
                let next = entries@.take(i + 1);
                assert(next.drop_last() == done);
                assert(next.last() == entries@[i as int]);
                assert(shown_time(entries@[i as int].timestamp@) is Some);
                assert(views_of_strings(lines@) =~= views_of_strings(before) + views_of_strings(
                    added,
                ));
            }
        }
        i += 1;
    }
    proof {
        assert(entries@.take(entries.len() as int) == entries@);
    }
    lines
}

} // verus!
