//! The present moment as a time of day, read from the local clock or from a
//! time that the caller supplies in its place.

use vstd::prelude::*;
use chrono::{DateTime, Local, NaiveTime, Timelike};
use std::str::FromStr;
use crate::metadata::DAY_SECONDS;

verus! {

/// Trusted: `chrono::NaiveTime`, a time of day, carried through as it is.
#[verifier::external_type_specification]
#[verifier::external_body]
pub struct ExNaiveTime(NaiveTime);

/// Trusted: `chrono::Local::now`, of which `DateTime::time` keeps the time of
/// day. Nothing is claimed of the result: it is the clock's. chrono panics
/// where the system clock stands before 1970.
#[verifier::external_body]
fn local_time_now() -> (time: NaiveTime) {
    Local::now().time()
}

/// Whether chrono reads `text` as a date and time with an offset, in its
/// relaxed form of RFC 3339: what `<chrono::DateTime<chrono::Local> as
/// FromStr>::from_str` decides before it looks at the time zone.
pub uninterp spec fn reads_as_time(text: Seq<char>) -> bool;

/// Trusted: `<chrono::DateTime<chrono::Local> as FromStr>::from_str`, which
/// reads a date and time with an offset and moves it to the machine's time
/// zone; `DateTime::time` keeps the time of day. `None` stands for chrono's
/// parse error. Whether the text is read depends on the text alone, and the
/// contract says so by name. Which time of day comes back depends on the time
/// zone as well, and nothing is claimed of it.
#[verifier::external_body]
fn local_time_of(text: &str) -> (time: Option<NaiveTime>)
    ensures
        time.is_some() == reads_as_time(text@),
{
    match DateTime::<Local>::from_str(text) {
        Ok(moment) => Some(moment.time()),
        Err(_) => None,
    }
}

/// Trusted: `chrono::Timelike::num_seconds_from_midnight` on a `NaiveTime`.
/// chrono documents that every time of day maps to a number from 0 to 86399;
/// the contract claims that range and no more.
#[verifier::external_body]
fn seconds_from_midnight(time: &NaiveTime) -> (seconds: u32)
    ensures
        seconds < DAY_SECONDS,
{
    time.num_seconds_from_midnight()
}

/// A time of day is owed: no time is supplied, so the clock is read, or the
/// supplied time is one that chrono reads.
pub open spec fn time_is_owed(override_time: Option<&str>) -> bool {
    match override_time {
        Some(text) => reads_as_time(text@),
        None => true,
    }
}

/// The time of day that the selection goes by, in seconds since midnight:
/// that of `override_time` in the local time zone, where the caller supplies
/// one (a date and time with an offset, such as `2012-12-12T12:12:12+00:00`),
/// else that of the local clock. `None` where a supplied time cannot be read,
/// and only there.
pub fn now_time(override_time: Option<&str>) -> (r: Option<u32>)
    ensures
        r.is_some() == time_is_owed(override_time),
        r.is_some() ==> r.unwrap() < DAY_SECONDS,
{
    let time: Option<NaiveTime> = match override_time {
        Some(text) => local_time_of(text),
        None => Some(local_time_now()),
    };
    match time {
        Some(time) => Some(seconds_from_midnight(&time)),
        None => None,
    }
}

} // verus!
