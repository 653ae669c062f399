//! Reading the clock and writing calendar dates.
//!
//! Moments are counted in microseconds since 1970-01-01 00:00:00 UTC.

use std::fmt::Write;
use vstd::prelude::*;

verus! {

/// The present moment.
///
/// Calls `chrono::Utc::now` and `chrono::DateTime::timestamp_micros`.  Nothing
/// is claimed of the result: it is whatever the system clock reads.  On a
/// machine whose clock is set before 1970 `chrono::Utc::now` panics.
#[verifier::external_body]
pub(crate) fn now() -> (micros: i64) {
    chrono::Utc::now().timestamp_micros()
}

/// The text of the moment `micros` written after `pattern`, a format string
/// of `chrono::format::strftime`; nothing where the moment lies outside the
/// years that a calendar date can hold, or where the pattern is not one.
pub uninterp spec fn calendar_text(micros: i64, pattern: Seq<char>) -> Option<Seq<char>>;

/// Writes the moment `micros` after `pattern`.
///
/// Calls `chrono::DateTime::from_timestamp_micros`, which answers nothing for
/// a moment out of range, then `chrono::DateTime::format` and the `Display` of
/// what it returns, which fails on a pattern that is not one.  The date and
/// time are those of UTC, so the text depends on the two arguments alone;
/// the contract gives that text its name and claims no more.
#[verifier::external_body]
pub(crate) fn format_moment(micros: i64, pattern: &str) -> (r: Option<String>)
    ensures
        r.deep_view() == calendar_text(micros, pattern@),
{
    match chrono::DateTime::from_timestamp_micros(micros) {
        Some(moment) => {
            let mut out = String::new();
            match write!(out, "{}", moment.format(pattern)) {
                Ok(()) => Some(out),
                Err(_) => None,
            }
        },
        None => None,
    }
}

} // verus!
