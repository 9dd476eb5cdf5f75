//! The library's only source of wall-clock time, read through chrono.
//!
//! A wall-clock reading depends on the machine and the moment, so nothing is
//! promised of the values; every caller states what holds whatever time came
//! back.

use vstd::prelude::*;

use chrono::Timelike;

verus! {

/// Relies on chrono's `Local::now` and `DateTime::timestamp_millis`: the
/// current wall-clock time, as milliseconds since the Unix epoch.
#[verifier::external_body]
pub fn now_ms() -> i64 {
    chrono::Local::now().timestamp_millis()
}

/// Relies on chrono's `Local::now` and the `Timelike` adjusters
/// `with_hour`, `with_minute` and `with_second`: the end of the current
/// local day (23:59:59), as milliseconds since the Unix epoch, or `None`
/// when the local time zone has no such instant today.
#[verifier::external_body]
pub fn end_of_today_ms() -> Option<i64> {
    let now = chrono::Local::now();
    let t = match now.with_hour(23) {
        Some(t) => t,
        None => return None,
    };
    let t = match t.with_minute(59) {
        Some(t) => t,
        None => return None,
    };
    let t = match t.with_second(59) {
        Some(t) => t,
        None => return None,
    };
    Some(t.timestamp_millis())
}

} // verus!
