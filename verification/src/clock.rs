//! Trusted shims over chrono for the two things only it can compute: the
//! time now, and what a local calendar date and wall-clock time mean as an
//! absolute instant under the machine's time zone.

use vstd::prelude::*;

verus! {

/// Relies on chrono's `Utc::now`: the current time in epoch milliseconds.
/// Nothing can be promised of a clock reading.
#[verifier::external_body]
pub fn now_epoch_ms() -> i64 {
    chrono::Utc::now().timestamp_millis()
}

/// Relies on chrono's `TimeZone::from_local_datetime` on `Local`, with the
/// date and time built by `NaiveDate::from_ymd_opt`, `NaiveTime::from_hms_opt`
/// and `NaiveDate::and_time`: interprets the given calendar date and
/// wall-clock time in the machine's local time zone and returns the instant
/// in epoch milliseconds. When the local time is ambiguous (a
/// daylight-saving fold) the earlier of the two instants is taken; when it
/// does not exist (a spring-forward gap) there is none. The answer depends
/// on the machine's time zone data, so nothing is promised of the value.
#[verifier::external_body]
pub fn local_epoch_ms(year: u16, month: u8, day: u8, hour: u8, minute: u8) -> Option<i64> {
    let date = chrono::NaiveDate::from_ymd_opt(year as i32, month as u32, day as u32)?;
    let time = chrono::NaiveTime::from_hms_opt(hour as u32, minute as u32, 0)?;
    match chrono::TimeZone::from_local_datetime(&chrono::Local, &date.and_time(time)) {
        chrono::LocalResult::Single(dt) => Some(dt.timestamp_millis()),
        chrono::LocalResult::Ambiguous(first, _) => Some(first.timestamp_millis()),
        chrono::LocalResult::None => None,
    }
}

} // verus!
