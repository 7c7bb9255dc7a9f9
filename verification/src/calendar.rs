//! Moments written as dates.

use vstd::prelude::*;

use crate::github::types::Timestamp;
use crate::text;

verus! {

/// The text that `chrono` writes for a moment in UTC by a pattern, if the moment is in its
/// calendar.
pub uninterp spec fn chrono_formatted(seconds: i64, nanos: u32, pattern: Seq<char>) -> Option<
    Seq<char>,
>;

/// Calls `DateTime::from_timestamp` and `DateTime::format` of the crate `chrono`, for UTC. The text
/// depends on the moment and the pattern alone. The moments from 1970 to 9999 are in the calendar,
/// and their days take 10 characters and their minutes 16; what the characters are is left to the
/// calendar.
#[verifier::external_body]
fn chrono_format(seconds: i64, nanos: u32, pattern: &str) -> (r: Option<String>)
    requires
        pattern@ == "%Y-%m-%d"@ || pattern@ == "%Y-%m-%d %H:%M"@,
    ensures
        text::opt_string(r) == chrono_formatted(seconds, nanos, pattern@),
        0 <= seconds <= 253_402_300_799 && nanos < 1_000_000_000 ==> r is Some && r->0@.len()
            == if pattern@ == "%Y-%m-%d"@ {
            10nat
        } else {
            16nat
        },
{
    chrono::DateTime::<chrono::Utc>::from_timestamp(seconds, nanos).map(
        |t| t.format(pattern).to_string(),
    )
}

/// The day of a moment, as year, month and day.
pub open spec fn day_of(t: Timestamp) -> Option<Seq<char>> {
    chrono_formatted(t.seconds, t.nanos, "%Y-%m-%d"@)
}

/// The minute of a moment, as its day, hour and minute.
pub open spec fn minute_of(t: Timestamp) -> Option<Seq<char>> {
    chrono_formatted(t.seconds, t.nanos, "%Y-%m-%d %H:%M"@)
}

/// The day of a moment. `None` if the moment is not in the calendar.
pub fn day_text(t: Timestamp) -> (r: Option<String>)
    ensures
        text::opt_string(r) == day_of(t),
        0 <= t.seconds <= 253_402_300_799 && t.nanos < 1_000_000_000 ==> r is Some,
{
    chrono_format(t.seconds, t.nanos, "%Y-%m-%d")
}

/// The minute of a moment. `None` if the moment is not in the calendar.
pub fn minute_text(t: Timestamp) -> (r: Option<String>)
    ensures
        text::opt_string(r) == minute_of(t),
        0 <= t.seconds <= 253_402_300_799 && t.nanos < 1_000_000_000 ==> r is Some,
{
    chrono_format(t.seconds, t.nanos, "%Y-%m-%d %H:%M")
}

} // verus!
