//! Conversions between textual or numeric time stamps and points in time.
//!
//! Every point in time is an [`Instant`]: a count of seconds and nanoseconds
//! relative to 1970-01-01T00:00:00Z, without any time zone attached.

pub mod adapter;
pub mod calendar;
pub mod instant;
pub mod math;
pub mod new_york;
pub mod parse;
pub mod print;
pub mod round_trip;
pub mod text;
pub mod timezone;

pub use crate::instant::Instant;
pub use crate::math::{days_back, days_back_from, next_day, tomorrow};
pub use crate::parse::{parse_system_time_from_date_str, parse_system_time_from_str};
pub use crate::print::{print_system_time_to_rfc3339, print_system_time_to_rfc3339_with_nanos};
pub use crate::timezone::{Offset, TimeZone, EST, UTC};
