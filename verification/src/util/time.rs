//! The clock.

use vstd::prelude::*;

verus! {

/// The formats in which this crate asks for the time: the time of day, and
/// the day with the time of day.
pub open spec fn is_time_format(format: Seq<char>) -> bool {
    format == "%H:%M:%S"@ || format == "%Y-%m-%d %H:%M:%S"@
}

/// The local time of this moment in a given format: `chrono::Local::now`,
/// written with `format`. Nothing is promised of the text: it depends on the
/// clock and on the time zone of the machine. A format that chrono cannot
/// read would make the call panic, so only the two formats above are let in.
#[verifier::external_body]
pub fn local_now(format: &str) -> (r: String)
    requires
        is_time_format(format@),
{
    ::chrono::Local::now().format(format).to_string()
}

/// The seconds since the first second of 1970, by the clock of this
/// moment: `chrono::Utc::now().timestamp()`.
#[verifier::external_body]
pub(crate) fn utc_now() -> (r: i64) {
    ::chrono::Utc::now().timestamp()
}

} // verus!
