//! Log timestamps and run durations.

use vstd::prelude::*;
use crate::text::{chars_of, copy_range, find, find_exec, lemma_find_from, string_from};

verus! {

/// An instant: whole seconds since the Unix epoch and the nanoseconds past them.
#[derive(Clone, Copy, Debug, PartialEq, Eq, Structural)]
pub struct Timestamp {
    pub secs: i64,
    pub nanos: u32,
}

/// Nanoseconds since the Unix epoch.
pub open spec fn nanos_of(t: Timestamp) -> int {
    t.secs * 1_000_000_000 + t.nanos
}

/// What `chrono::NaiveDateTime::parse_from_str(text, fmt)` yields, read as a
/// UTC instant: `(timestamp(), timestamp_subsec_nanos())`.
pub uninterp spec fn spec_naive_utc(text: Seq<char>, fmt: Seq<char>) -> Option<(i64, u32)>;

/// Calls `chrono::NaiveDateTime::parse_from_str` and reads the result as a
/// UTC instant. The contract names the result; it claims nothing about which
/// texts parse.
#[verifier::external_body]
fn parse_naive_utc(text: &str, fmt: &str) -> (r: Option<(i64, u32)>)
    ensures
        r == spec_naive_utc(text@, fmt@),
{
    match chrono::NaiveDateTime::parse_from_str(text, fmt) {
        Ok(t) => Some((t.and_utc().timestamp(), t.and_utc().timestamp_subsec_nanos())),
        Err(_) => None,
    }
}

/// Reads the system clock as `chrono::DateTime::<Utc>::from(SystemTime::now())`
/// (which, unlike `Utc::now`, also takes times before 1970) and returns
/// `(timestamp(), timestamp_subsec_nanos())`. The conversion builds the
/// instant with `timestamp_opt(secs, nsecs)` from a nanosecond part below one
/// second, so no leap second arises; which instant it is, is not specified.
#[verifier::external_body]
fn utc_now() -> (r: (i64, u32))
    ensures
        r.1 < 1_000_000_000,
{
    let now = chrono::DateTime::<chrono::Utc>::from(std::time::SystemTime::now());
    (now.timestamp(), now.timestamp_subsec_nanos())
}

/// The current time.
pub fn now() -> (r: Timestamp)
    ensures
        r.nanos < 1_000_000_000,
{
    let (secs, nanos) = utc_now();
    Timestamp { secs, nanos }
}

/// The `strftime` format of the bracketed time that starts each log line.
pub open spec fn log_time_format() -> Seq<char> {
    "%Y.%m.%d-%H.%M.%S:%3f"@
}

/// The text between the opening character and the first `]` of a line, when
/// the opening character is a single byte.
pub open spec fn spec_timestamp_text(line: Seq<char>) -> Option<Seq<char>> {
    match find(line, seq![']']) {
        Some(k) => if k >= 1 && (line[0] as u32) < 128 {
            Some(line.subrange(1, k))
        } else {
            None
        },
        None => None,
    }
}

pub open spec fn spec_parse_timestamp(line: Seq<char>) -> Option<Timestamp> {
    match spec_timestamp_text(line) {
        Some(text) => match spec_naive_utc(text, log_time_format()) {
            Some((secs, nanos)) => Some(Timestamp { secs, nanos }),
            None => None,
        },
        None => None,
    }
}

/// The time at the start of a log line, `[YYYY.MM.DD-HH.MM.SS:mmm]`.
pub fn parse_timestamp(line: &str) -> (r: Option<Timestamp>)
    ensures
        r == spec_parse_timestamp(line@),
{
    let l = chars_of(line);
    let close = vec![']'];
    assert(close@ =~= seq![']']);
    let k = match find_exec(l.as_slice(), close.as_slice()) {
        Some(k) => k,
        None => {
            return None;
        },
    };
    proof {
        lemma_find_from(l@, seq![']'], 0);
    }
    if k < 1 || (l[0] as u32) >= 128 {
        return None;
    }
    let raw = copy_range(l.as_slice(), 1, k);
    let text = string_from(raw.as_slice());
    match parse_naive_utc(text.as_str(), "%Y.%m.%d-%H.%M.%S:%3f") {
        Some((secs, nanos)) => Some(Timestamp { secs, nanos }),
        None => None,
    }
}

/// Whole seconds from `start` to `end`; zero when `end` is earlier, and at
/// most `i64::MAX`.
pub open spec fn spec_duration_seconds(start: Timestamp, end: Timestamp) -> int {
    if nanos_of(end) >= nanos_of(start) {
        let s = (nanos_of(end) - nanos_of(start)) / 1_000_000_000;
        if s > i64::MAX {
            i64::MAX as int
        } else {
            s
        }
    } else {
        0
    }
}

/// Whole seconds elapsed between two instants (zero if `end` is earlier).
pub fn duration_seconds(start: Timestamp, end: Timestamp) -> (r: i64)
    ensures
        r == spec_duration_seconds(start, end),
        r >= 0,
{
    let s = start.secs as i128 * 1_000_000_000 + start.nanos as i128;
    let e = end.secs as i128 * 1_000_000_000 + end.nanos as i128;
    if e >= s {
        let d = (e - s) / 1_000_000_000;
        if d > i64::MAX as i128 {
            i64::MAX
        } else {
            d as i64
        }
    } else {
        0
    }
}

/// Seconds between two optional instants; zero unless both are known and in
/// order.
pub open spec fn spec_duration_seconds_opt(start: Option<Timestamp>, end: Option<Timestamp>) -> int {
    match (start, end) {
        (Some(s), Some(e)) => spec_duration_seconds(s, e),
        _ => 0,
    }
}

pub fn duration_seconds_opt(start: Option<Timestamp>, end: Option<Timestamp>) -> (r: i64)
    ensures
        r == spec_duration_seconds_opt(start, end),
        r >= 0,
{
    match (start, end) {
        (Some(s), Some(e)) => duration_seconds(s, e),
        _ => 0,
    }
}

} // verus!
