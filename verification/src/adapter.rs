//! Decoding instants from, and encoding them to, the plain values that a
//! serialization framework hands over: strings and unsigned integers.

use vstd::prelude::*;
use vstd::string::*;

use crate::instant::instant_view;
use crate::instant::Instant;
use crate::parse::parse_system_time_from_date_str;
use crate::parse::parse_system_time_from_str;
use crate::parse::spec_parse_date;
use crate::parse::spec_parse_time;
use crate::print::is_printable;
use crate::print::is_printable_time;
use crate::print::print_system_time_to_rfc3339;
use crate::print::spec_rfc3339_millis;
use crate::timezone::TimeZone;
use crate::new_york::local_offset_in_new_york;
use crate::new_york::new_york_offset_at_local;
use crate::new_york::new_york_offset_at_utc;
use crate::new_york::utc_offset_in_new_york;

verus! {

/// The value that a decoder met and could not accept.
#[derive(Debug, PartialEq, Eq)]
pub enum Unexpected {
    /// A string.
    Str(String),
    /// An unsigned integer.
    Unsigned(u64),
}

/// What a decoder had expected to find.
#[derive(Clone, Copy, Debug, PartialEq, Eq, Structural)]
pub enum Expected {
    /// A time stamp in one of the layouts of
    /// [`parse_system_time_from_str`].
    TimeStamp,
    /// A time stamp, or nothing.
    OptionalTimeStamp,
    /// A date of the form `YYYY-MM-DD`.
    Date,
    /// A count of milliseconds that the clock of a time zone can be asked
    /// about.
    ZoneMillis,
}

impl Expected {
    /// The words that describe what was expected.
    pub open spec fn spec_description(self) -> Seq<char> {
        match self {
            Expected::TimeStamp => "a time stamp string"@,
            Expected::OptionalTimeStamp => "an optional time stamp string"@,
            Expected::Date => "a date string"@,
            Expected::ZoneMillis => "milliseconds within the range of the time zone's dates"@,
        }
    }

    /// The words that describe what was expected.
    pub fn description(&self) -> (r: &'static str)
        ensures
            r@ == self.spec_description(),
    {
        match self {
            Expected::TimeStamp => "a time stamp string",
            Expected::OptionalTimeStamp => "an optional time stamp string",
            Expected::Date => "a date string",
            Expected::ZoneMillis => "milliseconds within the range of the time zone's dates",
        }
    }
}

/// A value that could not be decoded: what was found, and what had been
/// expected in its place.
#[derive(Debug, PartialEq, Eq)]
pub struct DecodeError {
    /// The rejected input.
    pub unexpected: Unexpected,
    /// What the input should have been.
    pub expected: Expected,
}

impl DecodeError {
    /// Whether this error reports that the string `text` was found where
    /// `expected` should have been.
    pub open spec fn rejects_text(self, text: Seq<char>, expected: Expected) -> bool {
        &&& self.expected == expected
        &&& self.unexpected matches Unexpected::Str(found)
        &&& found@ == text
    }

    /// Whether this error reports that the integer `value` was found where
    /// `expected` should have been.
    pub open spec fn rejects_integer(self, value: u64, expected: Expected) -> bool {
        &&& self.expected == expected
        &&& self.unexpected matches Unexpected::Unsigned(found)
        &&& found == value
    }
}

/// Why an instant could not be encoded.
#[derive(Clone, Copy, Debug, PartialEq, Eq, Structural)]
pub enum EncodeError {
    /// The instant, or what a time zone's clock makes of it, lies before
    /// the epoch, and the encoding is an unsigned count.
    BeforeEpoch,
    /// The instant lies outside the years 0000 to 9999.
    OutOfRange,
    /// The clock of the time zone never shows the reading, or shows it
    /// twice, or the time zone's data does not reach that far.
    NoLocalTime,
}

/// What decoding a string with `parsed` as its reading gives: the instant,
/// or the rejection of `text`.
pub open spec fn spec_decoded_text(
    result: Result<Instant, DecodeError>,
    text: Seq<char>,
    parsed: Option<int>,
    expected: Expected,
) -> bool {
    match parsed {
        Some(nanos) => result matches Ok(time) && time@ == nanos,
        None => result matches Err(error) && error.rejects_text(text, expected),
    }
}

/// Decodes `time` where `parsed` is what a parser made of it.
fn decoded_text(time: &str, parsed: Option<Instant>, expected: Expected) -> (r: Result<
    Instant,
    DecodeError,
>)
    ensures
        spec_decoded_text(r, time@, instant_view(parsed), expected),
{
    match parsed {
        Some(instant) => Ok(instant),
        None => Err(DecodeError { unexpected: Unexpected::Str(time.to_owned()), expected }),
    }
}

/// Decode a time stamp as an instant; a string in none of the layouts of a
/// time stamp is rejected.
pub fn system_time_from_str(time: &str) -> (r: Result<Instant, DecodeError>)
    ensures
        spec_decoded_text(r, time@, spec_parse_time(time@), Expected::TimeStamp),
{
    decoded_text(time, parse_system_time_from_str(time), Expected::TimeStamp)
}

/// Decode an optional time stamp: nothing decodes to nothing, a string as
/// in [`system_time_from_str`].
pub fn optional_system_time_from_str(time: Option<&str>) -> (r: Result<
    Option<Instant>,
    DecodeError,
>)
    ensures
        match time {
            Some(text) => match spec_parse_time(text@) {
                Some(nanos) => r matches Ok(Some(instant)) && instant@ == nanos,
                None => r matches Err(error) && error.rejects_text(
                    text@,
                    Expected::OptionalTimeStamp,
                ),
            },
            None => r matches Ok(None),
        },
{
    match time {
        Some(text) => {
            match decoded_text(
                text,
                parse_system_time_from_str(text),
                Expected::OptionalTimeStamp,
            ) {
                Ok(instant) => Ok(Some(instant)),
                Err(error) => Err(error),
            }
        },
        None => Ok(None),
    }
}

/// Decode an instant from a date: midnight UTC on that date. A string that
/// is no date is rejected.
pub fn system_time_from_date_str(date: &str) -> (r: Result<Instant, DecodeError>)
    ensures
        spec_decoded_text(r, date@, spec_parse_date(date@), Expected::Date),
{
    decoded_text(date, parse_system_time_from_date_str(date), Expected::Date)
}

/// Decode an instant from a UNIX time stamp: whole seconds since the
/// epoch.
pub fn system_time_from_secs(seconds: u64) -> (r: Instant)
    requires
        seconds <= i64::MAX,
    ensures
        r@ == seconds * 1_000_000_000,
{
    Instant::from_secs(seconds as i64)
}

/// Decode an instant from a count of milliseconds since the epoch.
pub fn system_time_from_millis(ms: u64) -> (r: Instant)
    ensures
        r@ == ms * 1_000_000,
{
    Instant::from_parts((ms / 1000) as i64, ((ms % 1000) as u32) * 1_000_000)
}

/// Decode an instant from a count of milliseconds that was read off a
/// clock of the zone `Z`: the count is decoded as by
/// [`system_time_from_millis`] and then corrected by the zone's offset.
pub fn system_time_from_millis_in_tz<Z: TimeZone>(ms: u64) -> (r: Instant)
    ensures
        r@ == ms * 1_000_000 + Z::spec_offset().seconds() * 1_000_000_000,
{
    let time = system_time_from_millis(ms);
    proof {
        assert(time.spec_secs() == ms / 1000);
    }
    Z::add(time)
}

/// What [`from_millis_with_offset`] makes of `ms` and `offset`.
pub open spec fn spec_from_millis_with_offset(
    result: Result<Instant, DecodeError>,
    ms: u64,
    offset: Option<i32>,
) -> bool {
    match offset {
        Some(seconds) => result matches Ok(time) && time@ == ms * 1_000_000 + seconds
            * 1_000_000_000,
        None => result matches Err(error) && error.rejects_integer(ms, Expected::ZoneMillis),
    }
}

/// The reading of a clock that runs `offset` seconds ahead of UTC at the
/// instant `ms` milliseconds after the epoch, taken as if a clock in UTC
/// had shown it. Without an offset the count is rejected.
pub fn from_millis_with_offset(ms: u64, offset: Option<i32>) -> (r: Result<Instant, DecodeError>)
    ensures
        spec_from_millis_with_offset(r, ms, offset),
{
    match offset {
        Some(seconds) => {
            let time = system_time_from_millis(ms);
            proof {
                assert(time.spec_secs() == ms / 1000);
            }
            Ok(time.add_secs(seconds as i64))
        },
        None => Err(
            DecodeError { unexpected: Unexpected::Unsigned(ms), expected: Expected::ZoneMillis },
        ),
    }
}

/// Decode an instant from a count of milliseconds since the epoch: the
/// reading of a clock in New York at that instant, taken as if a clock in
/// UTC had shown it. A count that the time zone's data does not reach is
/// rejected.
pub fn system_time_from_millis_in_new_york(ms: u64) -> (r: Result<Instant, DecodeError>)
    ensures
        spec_from_millis_with_offset(r, ms, new_york_offset_at_utc((ms / 1000) as i64)),
{
    from_millis_with_offset(ms, utc_offset_in_new_york((ms / 1000) as i64))
}

/// Encode an instant as an RFC 3339 time stamp with milliseconds. An
/// instant outside the years 0000 to 9999 has no such time stamp.
pub fn system_time_to_rfc3339(time: &Instant) -> (r: Result<String, EncodeError>)
    ensures
        is_printable(time@) ==> (r matches Ok(text) && text@ == spec_rfc3339_millis(time@)),
        !is_printable(time@) ==> r == Err::<String, EncodeError>(EncodeError::OutOfRange),
{
    if is_printable_time(time) {
        Ok(print_system_time_to_rfc3339(time))
    } else {
        Err(EncodeError::OutOfRange)
    }
}

/// Encode an optional instant: nothing encodes to nothing, an instant as
/// in [`system_time_to_rfc3339`].
pub fn optional_system_time_to_rfc3339(time: &Option<Instant>) -> (r: Result<
    Option<String>,
    EncodeError,
>)
    ensures
        match *time {
            Some(instant) => if is_printable(instant@) {
                r matches Ok(Some(text)) && text@ == spec_rfc3339_millis(instant@)
            } else {
                r == Err::<Option<String>, EncodeError>(EncodeError::OutOfRange)
            },
            None => r matches Ok(None),
        },
{
    match time {
        Some(instant) => match system_time_to_rfc3339(instant) {
            Ok(text) => Ok(Some(text)),
            Err(error) => Err(error),
        },
        None => Ok(None),
    }
}

/// The whole milliseconds from the epoch to the instant `nanos` nanoseconds
/// after it, if that instant is not before the epoch.
pub open spec fn spec_millis(nanos: int) -> Result<u128, EncodeError> {
    if nanos < 0 {
        Err(EncodeError::BeforeEpoch)
    } else {
        Ok((nanos / 1_000_000) as u128)
    }
}

/// Encode an instant as the count of whole milliseconds since the epoch.
/// An instant before the epoch has no such count.
pub fn system_time_to_millis(time: &Instant) -> (r: Result<u128, EncodeError>)
    ensures
        r == spec_millis(time@),
{
    to_millis_with_offset(time, Some(0))
}

/// What [`to_millis_with_offset`] makes of the instant `nanos` nanoseconds
/// after the epoch and of `offset`.
pub open spec fn spec_to_millis_with_offset(nanos: int, offset: Option<i32>) -> Result<
    u128,
    EncodeError,
> {
    match offset {
        Some(seconds) => spec_millis(nanos - seconds * 1_000_000_000),
        None => Err(EncodeError::NoLocalTime),
    }
}

/// The count of milliseconds of the instant at which a clock that runs
/// `offset` seconds ahead of UTC shows what a clock in UTC shows at `time`.
/// Without an offset there is no such instant.
pub fn to_millis_with_offset(time: &Instant, offset: Option<i32>) -> (r: Result<
    u128,
    EncodeError,
>)
    ensures
        r == spec_to_millis_with_offset(time@, offset),
{
    match offset {
        Some(seconds) => {
            let nanos: i128 = (time.secs() as i128 - seconds as i128) * 1_000_000_000
                + time.subsec_nanos() as i128;
            if nanos < 0 {
                Err(EncodeError::BeforeEpoch)
            } else {
                Ok((nanos / 1_000_000) as u128)
            }
        },
        None => Err(EncodeError::NoLocalTime),
    }
}

/// Encode an instant as a count of milliseconds since the epoch in New
/// York: the count of the instant at which a clock in New York shows what
/// a clock in UTC shows at `time`.
pub fn system_time_to_millis_in_new_york(time: &Instant) -> (r: Result<u128, EncodeError>)
    ensures
        r == spec_to_millis_with_offset(
            time@,
            new_york_offset_at_local(time.spec_secs() as i64),
        ),
{
    to_millis_with_offset(time, local_offset_in_new_york(time.secs()))
}

} // verus!
