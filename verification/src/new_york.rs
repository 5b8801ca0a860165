//! The clock of New York, by the time zone database that `chrono-tz`
//! carries.

use vstd::prelude::*;

verus! {

/// The seconds by which a clock in New York is ahead of UTC (behind it, if
/// negative) at the instant `secs` seconds after the epoch; `None` where
/// `chrono` has no date for that instant.
pub uninterp spec fn new_york_offset_at_utc(secs: i64) -> Option<i32>;

/// The seconds by which a clock in New York is ahead of UTC when it reads
/// what a clock in UTC reads `secs` seconds after the epoch; `None` where
/// the clocks of New York skip that reading or show it twice, and where
/// `chrono` has no date for it.
pub uninterp spec fn new_york_offset_at_local(secs: i64) -> Option<i32>;

/// `chrono_tz::America::New_York` asked, through
/// `chrono::TimeZone::offset_from_utc_datetime`, for its offset at a UTC
/// time; the time is made by `chrono::DateTime::from_timestamp`, which has
/// none beyond its range of dates. The result depends on `secs` alone.
#[verifier::external_body]
pub(crate) fn utc_offset_in_new_york(secs: i64) -> (r: Option<i32>)
    ensures
        r == new_york_offset_at_utc(secs),
{
    let utc = chrono::DateTime::from_timestamp(secs, 0)?.naive_utc();
    let offset = chrono::TimeZone::offset_from_utc_datetime(&chrono_tz::America::New_York, &utc);
    Some(chrono::Offset::fix(&offset).local_minus_utc())
}

/// `chrono_tz::America::New_York` asked, through
/// `chrono::TimeZone::offset_from_local_datetime`, for its offset at a
/// local time; only a single answer counts. The result depends on `secs`
/// alone.
#[verifier::external_body]
pub(crate) fn local_offset_in_new_york(secs: i64) -> (r: Option<i32>)
    ensures
        r == new_york_offset_at_local(secs),
{
    let local = chrono::DateTime::from_timestamp(secs, 0)?.naive_utc();
    match chrono::TimeZone::offset_from_local_datetime(&chrono_tz::America::New_York, &local) {
        chrono::LocalResult::Single(offset) => Some(chrono::Offset::fix(&offset).local_minus_utc()),
        chrono::LocalResult::Ambiguous(_, _) => None,
        chrono::LocalResult::None => None,
    }
}

} // verus!
