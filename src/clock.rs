//! Calendar facts taken from chrono, and the system clock.

use chrono::Datelike;
use chrono::Timelike;
use vstd::prelude::*;
use crate::models::{instant_nanos, Timestamp};

verus! {

pub uninterp spec fn rfc3339_instant(s: Seq<char>) -> Option<(i64, u32)>;

pub uninterp spec fn utc_calendar_date(secs: int) -> Option<(i32, u32, u32)>;

pub uninterp spec fn hour_minute_of(s: Seq<char>) -> Option<(u32, u32)>;

/// Relies on `std::time::SystemTime::now` and `SystemTime::duration_since`
/// with `UNIX_EPOCH`: the span between the epoch and the current reading of
/// the system clock as (whole seconds, nanoseconds), `Ok` when the reading is
/// at or after the epoch and `Err` when it is before. Whatever the clock says;
/// the nanoseconds of a `Duration` stay below 10^9.
#[verifier::external_body]
fn system_clock() -> (r: Result<(u64, u32), (u64, u32)>)
    ensures
        match r {
            Ok(d) => d.1 < 1_000_000_000,
            Err(d) => d.1 < 1_000_000_000,
        },
{
    match std::time::SystemTime::now().duration_since(std::time::UNIX_EPOCH) {
        Ok(d) => Ok((d.as_secs(), d.subsec_nanos())),
        Err(e) => Err((e.duration().as_secs(), e.duration().subsec_nanos())),
    }
}

/// The instant `secs` seconds and `nanos` nanoseconds after the Unix epoch,
/// or before it when `after` is false. Whole seconds beyond the range of
/// `i64` are clamped to its bounds.
pub fn instant_from_epoch(after: bool, secs: u64, nanos: u32) -> (r: Timestamp)
    requires
        nanos < 1_000_000_000,
    ensures
        r.nanos < 1_000_000_000,
        secs <= i64::MAX && after ==> instant_nanos(r) == secs * 1_000_000_000 + nanos,
        secs <= i64::MAX && !after ==> instant_nanos(r) == -(secs * 1_000_000_000 + nanos),
        secs > i64::MAX && after ==> r == (Timestamp { secs: i64::MAX, nanos: nanos }),
        secs > i64::MAX && !after ==> r == (Timestamp { secs: i64::MIN, nanos: 0 }),
{
    if secs > i64::MAX as u64 {
        if after {
            Timestamp { secs: i64::MAX, nanos }
        } else {
            Timestamp { secs: i64::MIN, nanos: 0 }
        }
    } else if after {
        Timestamp { secs: secs as i64, nanos }
    } else if nanos == 0 {
        Timestamp { secs: -(secs as i64), nanos: 0 }
    } else {
        Timestamp { secs: -(secs as i64) - 1, nanos: 1_000_000_000 - nanos }
    }
}

/// The current instant, whatever the system clock says.
pub(crate) fn now_utc() -> (r: Timestamp)
    ensures
        r.nanos < 1_000_000_000,
{
    match system_clock() {
        Ok(d) => instant_from_epoch(true, d.0, d.1),
        Err(d) => instant_from_epoch(false, d.0, d.1),
    }
}

/// Relies on `chrono::DateTime::parse_from_rfc3339`: the UTC instant that an
/// RFC 3339 text denotes, or `None` when the text is not RFC 3339.
#[verifier::external_body]
pub(crate) fn parse_rfc3339(s: &str) -> (r: Option<Timestamp>)
    ensures
        r.is_some() == rfc3339_instant(s@).is_some(),
        r.is_some() ==> (r.unwrap().secs, r.unwrap().nanos) == rfc3339_instant(s@).unwrap(),
{
    chrono::DateTime::parse_from_rfc3339(s).ok().map(
        |dt| Timestamp { secs: dt.timestamp(), nanos: dt.timestamp_subsec_nanos() },
    )
}

/// Relies on `chrono::DateTime::<Utc>::from_timestamp` and its `Datelike`
/// accessors: the (year, month, day) in UTC of a second since the epoch, or
/// `None` outside chrono's range. Months run 1 to 12 and days 1 to 31.
#[verifier::external_body]
pub(crate) fn utc_date(secs: i64) -> (r: Option<(i32, u32, u32)>)
    ensures
        r == utc_calendar_date(secs as int),
        r matches Some(d) ==> 1 <= d.1 <= 12 && 1 <= d.2 <= 31,
{
    chrono::DateTime::from_timestamp(secs, 0).map(|dt| (dt.year(), dt.month(), dt.day()))
}

/// Relies on `chrono::NaiveTime::parse_from_str` with the format "%H:%M": the
/// (hour, minute) written in the text, or `None` when it does not parse.
/// Hours run 0 to 23 and minutes 0 to 59.
#[verifier::external_body]
pub(crate) fn parse_hour_minute(s: &str) -> (r: Option<(u32, u32)>)
    ensures
        r == hour_minute_of(s@),
        r matches Some(t) ==> t.0 < 24 && t.1 < 60,
{
    chrono::NaiveTime::parse_from_str(s, "%H:%M").ok().map(|t| (t.hour(), t.minute()))
}

} // verus!
