//! The wall clock, and rendering of clock readings for display.

use vstd::prelude::*;

verus! {

/// Largest second count this crate renders as a calendar date: the last
/// second of year 9999, so the year field always has four digits.
pub const TIMESTAMP_TEXT_MAX: i64 = 253402300799;

/// The calendar rendering (`YYYY-MM-DD hh:mm:ss UTC`) of a count of
/// non-leap seconds since the Unix epoch. Named, not written out: the
/// civil-calendar conversion belongs to the clock library.
pub uninterp spec fn timestamp_text(secs: int) -> Seq<char>;

/// Relies on `chrono::Utc::now` and `DateTime::timestamp`: the current
/// moment as non-leap seconds since the Unix epoch. A clock reading, so
/// nothing is promised of the value.
#[verifier::external_body]
pub(crate) fn now_unix_seconds() -> i64 {
    chrono::Utc::now().timestamp()
}

/// Relies on `chrono::DateTime::from_timestamp` (documented to return
/// `Some` for every in-range second count; the bound here is far inside
/// its range) and on strftime rendering with the fixed layout
/// `%Y-%m-%d %H:%M:%S UTC`: a function of `secs` alone.
#[verifier::external_body]
pub(crate) fn format_timestamp(secs: i64) -> (r: String)
    requires
        0 <= secs <= TIMESTAMP_TEXT_MAX,
    ensures
        r@ == timestamp_text(secs as int),
{
    match chrono::DateTime::from_timestamp(secs, 0) {
        Some(moment) => format!("{}", moment.format("%Y-%m-%d %H:%M:%S UTC")),
        None => String::new(),
    }
}

/// A second count forced into the range that [`format_timestamp`] accepts;
/// counts outside it stand as the epoch itself.
pub open spec fn clamped(secs: int) -> int {
    if 0 <= secs <= TIMESTAMP_TEXT_MAX as int {
        secs
    } else {
        0
    }
}

/// A clock reading forced into the range that [`format_timestamp`] accepts;
/// readings outside it render as the epoch itself.
pub fn clamp_timestamp(secs: i64) -> (r: i64)
    ensures
        0 <= r <= TIMESTAMP_TEXT_MAX,
        r == clamped(secs as int),
{
    if 0 <= secs && secs <= TIMESTAMP_TEXT_MAX {
        secs
    } else {
        0
    }
}

} // verus!
