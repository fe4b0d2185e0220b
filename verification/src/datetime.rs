//! The calendar rules: parsing reminder strings, rendering the canonical
//! display format, validating a candidate reminder and detecting overdue
//! reminders. The calendar arithmetic itself is chrono's, held behind
//! trusted wrappers whose results are named by uninterpreted functions.

use vstd::prelude::*;

use crate::domain::InvalidReminder;

verus! {

/// The instant, in whole seconds since the Unix epoch, that chrono reads out
/// of a string in the canonical display format (`%a, %b %e %Y %T`, e.g.
/// `Wed, Jan  5 2022 10:15:00`), or `None` when the string does not parse.
pub uninterp spec fn canonical_parse(s: Seq<char>) -> Option<int>;

/// The instant that chrono reads out of a date in `%Y%m%d` form paired with
/// a time in `%H:%M:%S` form, or `None` when the pair does not parse.
pub uninterp spec fn compact_parse(date: Seq<char>, time: Seq<char>) -> Option<int>;

/// The canonical rendering (`%a, %b %e %Y %T`) of an instant, as chrono's
/// `from_timestamp` followed by `format` renders it.
pub uninterp spec fn canonical_of(ts: int) -> Seq<char>;

/// Relies on chrono's `NaiveDateTime::parse_from_str` with the canonical
/// format `%a, %b %e %Y %T` and `DateTime::timestamp`: the result depends on
/// the input string alone.
#[verifier::external_body]
fn parse_canonical(s: &str) -> (r: Option<i64>)
    ensures
        r matches Some(ts) ==> canonical_parse(s@) == Some(ts as int),
        r is None ==> canonical_parse(s@) is None,
{
    match chrono::NaiveDateTime::parse_from_str(s, "%a, %b %e %Y %T") {
        Ok(d) => Some(d.and_utc().timestamp()),
        Err(_) => None,
    }
}

/// Relies on chrono's `NaiveDateTime::parse_from_str` with `%Y%m%d %H:%M:%S`
/// over the composed `"<date> <time>"` string, and on chrono's `format` with
/// the canonical format: rendering a parsed instant and parsing it back with
/// the same format specifiers recovers that instant (seconds resolution).
/// Nothing relates the rendered string to the timestamp alone: chrono reads
/// a leap second (`:60`) as an extra fraction that the timestamp drops but
/// the rendering keeps, so two renderings of one timestamp can differ.
#[verifier::external_body]
fn parse_and_render(date: &str, time: &str) -> (r: Option<(i64, String)>)
    ensures
        r matches Some(p) ==> {
            &&& compact_parse(date@, time@) == Some(p.0 as int)
            &&& canonical_parse(p.1@) == Some(p.0 as int)
        },
        r is None ==> compact_parse(date@, time@) is None,
{
    let s = format!("{} {}", date, time);
    match chrono::NaiveDateTime::parse_from_str(&s, "%Y%m%d %H:%M:%S") {
        Ok(d) => Some((d.and_utc().timestamp(), d.format("%a, %b %e %Y %T").to_string())),
        Err(_) => None,
    }
}

/// Whether an instant lies inside the calendar range that chrono's
/// `DateTime::<Utc>::from_timestamp` can represent (a function of the
/// timestamp alone).
pub uninterp spec fn canonical_renderable(ts: int) -> bool;

/// Relies on chrono's `DateTime::<Utc>::from_timestamp` and `format` with
/// the canonical format: `from_timestamp` succeeds exactly on the instants
/// of chrono's calendar range, never yields a leap second, and the rendered
/// string parses back to the same instant.
#[verifier::external_body]
fn format_canonical(ts: i64) -> (r: Option<String>)
    ensures
        r is Some <==> canonical_renderable(ts as int),
        r matches Some(s) ==> {
            &&& s@ == canonical_of(ts as int)
            &&& canonical_parse(s@) == Some(ts as int)
        },
{
    match chrono::DateTime::<chrono::Utc>::from_timestamp(ts, 0) {
        Some(d) => Some(d.format("%a, %b %e %Y %T").to_string()),
        None => None,
    }
}

/// A reminder is overdue exactly when it parses in the canonical format to
/// an instant strictly before `now`; an empty or malformed reminder is never
/// overdue.
pub open spec fn overdue_spec(reminder: Seq<char>, now: int) -> bool {
    match canonical_parse(reminder) {
        Some(ts) => ts < now,
        None => false,
    }
}

/// Whether a stored reminder string lies strictly in the past of `now`.
/// Malformed reminder strings (including the empty string, which stands for
/// "no reminder") are treated as "no reminder" and are never in the past.
pub fn datetime_str_is_past(reminder: &str, now: i64) -> (r: bool)
    ensures
        r == overdue_spec(reminder@, now as int),
{
    match parse_canonical(reminder) {
        Some(ts) => ts < now,
        None => false,
    }
}

/// The time component a candidate reminder is composed with: the given
/// `%H:%M:%S` string, or midnight when the caller asks for a date-only
/// reminder.
pub open spec fn reminder_time_seq(raw_time: Option<&str>) -> Seq<char> {
    match raw_time {
        Some(t) => t@,
        None => "00:00:00"@,
    }
}

/// Validates a candidate reminder composed of a `%Y%m%d` date and an
/// optional `%H:%M:%S` time (midnight when absent). A pair that does not
/// parse is `Unparseable`; when `must_be_future` is set, an instant not
/// strictly after `now` is `NotInFuture`; otherwise the instant is
/// re-rendered into the canonical display format, so that the stored form
/// and the comparison form always agree and re-parsing recovers the instant.
pub fn validate_reminder(
    raw_date: &str,
    raw_time: Option<&str>,
    must_be_future: bool,
    now: i64,
) -> (r: Result<String, InvalidReminder>)
    ensures
        ({
            let parsed = compact_parse(raw_date@, reminder_time_seq(raw_time));
            match r {
                Ok(s) => parsed matches Some(ts) && (must_be_future ==> ts > now)
                    && canonical_parse(s@) == Some(ts),
                Err(InvalidReminder::Unparseable) => parsed is None,
                Err(InvalidReminder::NotInFuture) => must_be_future && (parsed matches Some(ts)
                    && ts <= now),
            }
        }),
{
    let time: &str = match raw_time {
        Some(t) => t,
        None => "00:00:00",
    };
    match parse_and_render(raw_date, time) {
        None => Err(InvalidReminder::Unparseable),
        Some(p) => {
            if must_be_future && p.0 <= now {
                Err(InvalidReminder::NotInFuture)
            } else {
                Ok(p.1)
            }
        },
    }
}

/// Renders an instant in the canonical display format used for storage;
/// `None` exactly when the instant lies outside chrono's representable
/// calendar range, and the rendering always parses back to the instant.
pub fn canonical_datetime_string(ts: i64) -> (r: Option<String>)
    ensures
        r is Some <==> canonical_renderable(ts as int),
        r matches Some(s) ==> s@ == canonical_of(ts as int) && canonical_parse(s@) == Some(
            ts as int,
        ),
{
    format_canonical(ts)
}

} // verus!
