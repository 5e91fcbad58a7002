//! Times as texts. The calendar is that of `chrono`: the library asks it for
//! the text of a time in UTC and decides around the answer.

use vstd::prelude::*;
use vstd::utf8::encode_utf8;
use vstd::string::StringSliceAdditionalSpecFns;
use crate::text::{
    chars_of, decimal_from, owned, parse_decimal, text_option,
};

verus! {

/// The text that `chrono` gives for the time `seconds` after the epoch, in
/// UTC, under a pattern; none where the time is out of its range.
pub uninterp spec fn utc_text(seconds: i64, pattern: Seq<char>) -> Option<Seq<char>>;

/// The text that `chrono` gives for the time `millis` milliseconds after the
/// epoch, in UTC, under a pattern; none where the time is out of its range.
pub uninterp spec fn utc_millis_text(millis: i64, pattern: Seq<char>) -> Option<Seq<char>>;

/// The patterns that the library formats with. Each is one that `chrono`
/// accepts.
pub open spec fn known_pattern(pattern: Seq<char>) -> bool {
    pattern == "%Y-%m-%d"@ || pattern == "%Y-%m-%d %H:%M"@ || pattern == "%Y-%m-%d %H:%M:%S"@
        || pattern == "%Y-%m-%dT%H:%M:%SZ"@
}

/// Calls `chrono::DateTime::from_timestamp` with the seconds and no
/// nanoseconds, and formats the time it gives with `DateTime::format`. Both
/// depend on their arguments alone; the outcome is named `utc_text`.
/// Formatting panics on a pattern that `chrono` does not accept, so only
/// the library's own patterns are let in.
#[verifier::external_body]
fn format_utc_seconds(seconds: i64, pattern: &str) -> (r: Option<String>)
    requires
        known_pattern(pattern@),
    ensures
        text_option(r) == utc_text(seconds, pattern@),
{
    chrono::DateTime::from_timestamp(seconds, 0).map(|t| t.format(pattern).to_string())
}

/// Calls `chrono::DateTime::from_timestamp_millis` and formats the time it
/// gives with `DateTime::format`. Both depend on their arguments alone; the
/// outcome is named `utc_millis_text`. Only the library's own patterns are
/// let in.
#[verifier::external_body]
fn format_utc_millis(millis: i64, pattern: &str) -> (r: Option<String>)
    requires
        known_pattern(pattern@),
    ensures
        text_option(r) == utc_millis_text(millis, pattern@),
{
    chrono::DateTime::from_timestamp_millis(millis).map(|t| t.format(pattern).to_string())
}

/// The time, in milliseconds after the epoch, of the given hour, minute and
/// second of the day that a text names as year, month and day with `-`
/// between them, in UTC, as `chrono` reads and counts it; none where the
/// text names no day or the three are no time of day.
pub uninterp spec fn day_millis(text: Seq<char>, hour: u32, minute: u32, second: u32) -> Option<
    i64,
>;

/// Calls `chrono::NaiveDate::parse_from_str` with the pattern `%Y-%m-%d`,
/// `NaiveDate::and_hms_opt` with the time of day, and
/// `DateTime::timestamp_millis` for that time in UTC. All depend on their
/// arguments alone; the outcome is named `day_millis`.
#[verifier::external_body]
fn day_time_millis(text: &str, hour: u32, minute: u32, second: u32) -> (r: Option<i64>)
    ensures
        r == day_millis(text@, hour, minute, second),
{
    chrono::NaiveDate::parse_from_str(text, "%Y-%m-%d").ok().and_then(
        |d| d.and_hms_opt(hour, minute, second),
    ).map(|t| t.and_utc().timestamp_millis())
}

/// The first millisecond of the day that the text names.
pub fn day_start_millis(text: &str) -> (r: Option<i64>)
    ensures
        r == day_millis(text@, 0, 0, 0),
{
    day_time_millis(text, 0, 0, 0)
}

/// The start of the last second of the day that the text names, in
/// milliseconds.
pub fn day_end_millis(text: &str) -> (r: Option<i64>)
    ensures
        r == day_millis(text@, 23, 59, 59),
{
    day_time_millis(text, 23, 59, 59)
}

/// The text of a time, or `otherwise` where there is none.
pub open spec fn text_or(text: Option<Seq<char>>, otherwise: Seq<char>) -> Seq<char> {
    match text {
        Some(t) => t,
        None => otherwise,
    }
}

/// The day and time of a time in milliseconds after the epoch, or
/// `unknown` where the time is out of range.
pub fn format_timestamp(ts: i64) -> (r: String)
    ensures
        r@ == text_or(utc_millis_text(ts, "%Y-%m-%d %H:%M:%S"@), "unknown"@),
{
    match format_utc_millis(ts, "%Y-%m-%d %H:%M:%S") {
        Some(text) => text,
        None => owned("unknown"),
    }
}

/// The day and time of a time in milliseconds after the epoch, or `now`,
/// the text of the present time, where the time is out of range.
pub fn format_millis_or(ts: i64, now: &str) -> (r: String)
    ensures
        r@ == text_or(utc_millis_text(ts, "%Y-%m-%d %H:%M:%S"@), now@),
{
    match format_utc_millis(ts, "%Y-%m-%d %H:%M:%S") {
        Some(text) => text,
        None => owned(now),
    }
}

/// The day and minute of a time in seconds after the epoch, where one is
/// given and in range; else `unknown`.
pub fn format_modified(modified: Option<u64>) -> (r: String)
    ensures
        r@ == match modified {
            Some(seconds) => text_or(
                utc_text(seconds as i64, "%Y-%m-%d %H:%M"@),
                "unknown"@,
            ),
            None => "unknown"@,
        },
{
    match modified {
        Some(seconds) => match format_utc_seconds(
            #[verifier::truncate]
            (seconds as i64),
            "%Y-%m-%d %H:%M",
        ) {
            Some(text) => text,
            None => owned("unknown"),
        },
        None => owned("unknown"),
    }
}

/// The time of a commit as a text, or the empty text where the time is out
/// of range.
pub fn format_git_time(secs: i64) -> (r: String)
    ensures
        r@ == text_or(utc_text(secs, "%Y-%m-%dT%H:%M:%SZ"@), Seq::empty()),
{
    match format_utc_seconds(secs, "%Y-%m-%dT%H:%M:%SZ") {
        Some(text) => text,
        None => String::new(),
    }
}

/// The day that a text of digits stands for, where it is taken as a time in
/// seconds or, divided by 1000, as one in milliseconds: none where the text
/// is not all digits, stands for no signed 64-bit integer, or the time is
/// out of range.
pub open spec fn digits_day(chars: Seq<char>, millis: bool) -> Option<Seq<char>> {
    match decimal_from(chars, 0, i64::MAX as u64) {
        Some(number) => utc_text(
            if millis {
                (number / 1000) as i64
            } else {
                number as i64
            },
            "%Y-%m-%d"@,
        ),
        None => None,
    }
}

/// The day of a date in one of the forms that occur: for digits, thirteen
/// or more, the day of that time in milliseconds; for digits, ten or more,
/// the day of that time in seconds; for any other text of ten bytes or
/// more, its first ten bytes; else the text itself.
///
/// The text must not have a character across its tenth byte.
pub fn normalize_date(value: &str) -> (r: String)
    requires
        value.len() >= 10 ==> value.is_char_boundary(10),
    ensures
        value.len() >= 13 && digits_day(value@, true) is Some ==> r@ == digits_day(
            value@,
            true,
        )->0,
        !(value.len() >= 13 && digits_day(value@, true) is Some) && value.len() >= 10
            && digits_day(value@, false) is Some ==> r@ == digits_day(value@, false)->0,
        !(value.len() >= 13 && digits_day(value@, true) is Some) && !(value.len() >= 10
            && digits_day(value@, false) is Some) && value.len() >= 10 ==> encode_utf8(r@)
            == value.spec_bytes().subrange(0, 10),
        value.len() < 10 ==> r@ == value@,
{
    let chars = chars_of(value);
    assert(chars@.skip(0) == chars@);
    let number = parse_decimal(&chars, 0, i64::MAX as u64);
    if value.len() >= 13 {
        match number {
            Some(ms) => match format_utc_seconds((ms / 1000) as i64, "%Y-%m-%d") {
                Some(text) => {
                    return text;
                },
                None => {},
            },
            None => {},
        }
    }
    if value.len() >= 10 {
        match number {
            Some(secs) => match format_utc_seconds(secs as i64, "%Y-%m-%d") {
                Some(text) => {
                    return text;
                },
                None => {},
            },
            None => {},
        }
        let (head, _) = value.split_at(10);
        return owned(head);
    }
    owned(value)
}

} // verus!
