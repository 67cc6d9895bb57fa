//! The calls into the `chrono` crate: the current time, whether a text is a
//! calendar date, and how a stored instant is shown.

use vstd::prelude::*;

verus! {

/// Whether `chrono` reads `text` as a calendar date in the form
/// `YYYY-MM-DD`, that is, whether `NaiveDate::parse_from_str` with the
/// format `%Y-%m-%d` accepts it.
pub uninterp spec fn is_calendar_date(text: Seq<char>) -> bool;

/// The instant that `chrono` reads from the RFC 3339 text `timestamp`, in
/// UTC and in the form `YYYY-MM-DD HH:MM:SS`; `None` where `chrono` does
/// not read an instant from it.
pub uninterp spec fn shown_time(timestamp: Seq<char>) -> Option<Seq<char>>;

/// Calls `NaiveDate::parse_from_str` with the format `%Y-%m-%d`, and says
/// whether it accepted `text`.
#[verifier::external_body]
pub(crate) fn date_parses(text: &str) -> (ok: bool)
    ensures
        ok == is_calendar_date(text@),
{
    chrono::NaiveDate::parse_from_str(text, "%Y-%m-%d").is_ok()
}

/// Calls `Utc::now` and `DateTime::to_rfc3339`: the current instant as RFC
/// 3339 text. Nothing is promised of it, for it differs from call to call.
#[verifier::external_body]
pub(crate) fn now_rfc3339() -> (out: String) {
    chrono::Utc::now().to_rfc3339()
}

/// Parses `timestamp` as a `DateTime<Utc>` and calls `DateTime::format`
/// with `%Y-%m-%d %H:%M:%S`. The result is a function of the text alone.
#[verifier::external_body]
pub(crate) fn display_time(timestamp: &str) -> (r: Option<String>)
    ensures
        match r {
            Some(text) => shown_time(timestamp@) == Some(text@),
            None => shown_time(timestamp@) is None,
        },
{
    let parsed = timestamp.parse::<chrono::DateTime<chrono::Utc>>().ok();
    parsed.map(|instant| instant.format("%Y-%m-%d %H:%M:%S").to_string())
}

} // verus!
