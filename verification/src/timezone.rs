//! Fixed offsets from UTC and the zones that carry them.

use vstd::prelude::*;

use crate::instant::Instant;

verus! {

/// An enumeration describing a timezone offset.
#[derive(Clone, Copy, Debug, PartialEq, Eq, Structural)]
pub enum Offset {
    /// There is no offset, i.e., the time zone is UTC.
    Zero,
    /// An offset from UTC (in seconds) in the western hemisphere.
    ///
    /// E.g., a value of `1 * 60 * 60` maps to UTC-01:00
    West(u16),
    /// An offset from UTC (in seconds) in the eastern hemisphere.
    ///
    /// E.g., a value of `1 * 60 * 60` maps to UTC+01:00
    East(u16),
}

impl Offset {
    /// The signed number of seconds that the offset moves a time stamp by:
    /// negative to the west of UTC, positive to the east.
    pub open spec fn seconds(self) -> int {
        match self {
            Offset::Zero => 0,
            Offset::West(offset) => -(offset as int),
            Offset::East(offset) => offset as int,
        }
    }
}

/// A trait representing a timezone and operations defined for it.
pub trait TimeZone {
    /// The offset of this zone, as contracts speak of it.
    spec fn spec_offset() -> Offset;

    /// The offset of this zone.
    fn offset() -> (r: Offset)
        ensures
            r == Self::spec_offset(),
    ;

    /// Correct a time stamp by adding our offset.
    fn add(time: Instant) -> (r: Instant)
        requires
            i64::MIN <= time.spec_secs() + Self::spec_offset().seconds() <= i64::MAX,
        ensures
            r@ == time@ + Self::spec_offset().seconds() * 1_000_000_000,
    {
        match Self::offset() {
            Offset::Zero => time,
            Offset::West(offset) => time.add_secs(-(offset as i64)),
            Offset::East(offset) => time.add_secs(offset as i64),
        }
    }
}

/// The UTC timezone.
pub struct UTC {}

impl TimeZone for UTC {
    open spec fn spec_offset() -> Offset {
        Offset::Zero
    }

    fn offset() -> Offset {
        Offset::Zero
    }
}

/// The eastern standard time zone.
pub struct EST {}

impl TimeZone for EST {
    open spec fn spec_offset() -> Offset {
        Offset::West(18000)
    }

    fn offset() -> Offset {
        Offset::West(5 * 60 * 60)
    }
}

} // verus!
