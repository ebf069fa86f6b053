//! The suite creation timestamp as the test-report XML writes it: a
//! calendar date and time computed from the wall-clock seconds.  The
//! calendar arithmetic comes from an outside crate; its result is named,
//! not restated.

use vstd::prelude::*;

verus! {

/// What the timestamp text for a given count of seconds since the epoch
/// is: year, month, day, then hours, minutes and seconds, as the calendar
/// computes them.  A function of the seconds alone.
pub uninterp spec fn timestamp_text_of(secs: u64) -> Seq<char>;

/// Relies on chrono::DateTime::from_timestamp and its `%Y-%m-%dT%H:%M:%S`
/// formatting: the calendar rendering of a second count, depending on
/// that count alone.  Seconds derived from a 64-bit nanosecond reading
/// stay far below the calendar's range limit.
#[verifier::external_body]
pub(crate) fn format_timestamp(secs: u64) -> (r: String)
    requires
        secs <= 18_446_744_073,
    ensures
        r@ == timestamp_text_of(secs),
{
    match chrono::DateTime::<chrono::Utc>::from_timestamp(secs as i64, 0) {
        Some(t) => t.format("%Y-%m-%dT%H:%M:%S").to_string(),
        None => String::new(),
    }
}

} // verus!
