//! The point-in-time value that the whole crate revolves around.

use std::time::SystemTime;
use std::time::UNIX_EPOCH;

use vstd::prelude::*;

verus! {

/// The number of nanoseconds in a second.
pub const NANOS_PER_SEC: u32 = 1_000_000_000;

/// A point in time, counted from 1970-01-01T00:00:00Z and read as UTC.
///
/// The value is held as whole seconds (negative before the epoch) plus a
/// remainder of less than one second in nanoseconds. Its view is the total
/// number of nanoseconds since the epoch.
#[derive(Clone, Copy, Debug, PartialEq, Eq, Structural, PartialOrd, Ord, Hash)]
pub struct Instant {
    secs: i64,
    nanos: u32,
}

impl View for Instant {
    type V = int;

    closed spec fn view(&self) -> int {
        self.secs * 1_000_000_000 + self.nanos
    }
}

impl Instant {
    /// Whether the sub-second part is less than a full second. Every value
    /// that executable code can hold is well formed.
    #[verifier::type_invariant]
    pub closed spec fn wf(self) -> bool {
        self.nanos < NANOS_PER_SEC
    }

    /// The whole seconds since the epoch, rounded towards the past.
    pub open spec fn spec_secs(self) -> int {
        self@ / 1_000_000_000
    }

    /// The nanoseconds past the whole second.
    pub open spec fn spec_subsec_nanos(self) -> int {
        self@ % 1_000_000_000
    }

    /// The seconds of a well-formed instant fit into 64 bits.
    pub proof fn lemma_secs_bounds(self)
        requires
            self.wf(),
        ensures
            i64::MIN <= self.spec_secs() <= i64::MAX,
    {
    }

    /// Two well-formed instants with the same view are the same instant.
    pub proof fn lemma_view_injective(self, other: Instant)
        requires
            self.wf(),
            other.wf(),
            self@ == other@,
        ensures
            self == other,
    {
    }

    /// The instant `secs` seconds and `nanos` nanoseconds after the epoch,
    /// or `None` if `nanos` is a full second or more.
    pub fn new(secs: i64, nanos: u32) -> (r: Option<Instant>)
        ensures
            instant_view(r) == if nanos < NANOS_PER_SEC {
                Some(secs * 1_000_000_000 + nanos)
            } else {
                None
            },
    {
        if nanos < NANOS_PER_SEC {
            Some(Instant { secs, nanos })
        } else {
            None
        }
    }

    /// The instant `secs` seconds and `nanos` nanoseconds after the epoch.
    pub(crate) fn from_parts(secs: i64, nanos: u32) -> (r: Instant)
        requires
            nanos < NANOS_PER_SEC,
        ensures
            r@ == secs * 1_000_000_000 + nanos,
    {
        Instant { secs, nanos }
    }

    /// The instant that lies `secs` seconds and `nanos` nanoseconds after the
    /// epoch, or `None` if `nanos` is a full second or more or the seconds
    /// exceed what an instant can hold.
    pub fn after_epoch(secs: u64, nanos: u32) -> (r: Option<Instant>)
        ensures
            instant_view(r) == if nanos < NANOS_PER_SEC && secs <= i64::MAX {
                Some(secs * 1_000_000_000 + nanos)
            } else {
                None
            },
    {
        if nanos < NANOS_PER_SEC && secs <= i64::MAX as u64 {
            Some(Instant { secs: secs as i64, nanos })
        } else {
            None
        }
    }

    /// The instant that lies `secs` seconds and `nanos` nanoseconds before
    /// the epoch, or `None` if `nanos` is a full second or more or the
    /// seconds exceed what an instant can hold.
    pub fn before_epoch(secs: u64, nanos: u32) -> (r: Option<Instant>)
        ensures
            instant_view(r) == if nanos < NANOS_PER_SEC && secs <= i64::MAX {
                Some(-(secs * 1_000_000_000 + nanos))
            } else {
                None
            },
    {
        if nanos >= NANOS_PER_SEC || secs > i64::MAX as u64 {
            None
        } else if nanos == 0 {
            Some(Instant { secs: -(secs as i64), nanos: 0 })
        } else {
            Some(Instant { secs: -(secs as i64) - 1, nanos: NANOS_PER_SEC - nanos })
        }
    }

    /// How far the instant lies from the epoch, in whole seconds and the
    /// nanoseconds beyond them, and whether it lies before the epoch.
    pub fn distance_from_epoch(&self) -> (r: (bool, u64, u32))
        ensures
            r.0 == (self@ < 0),
            r.2 < NANOS_PER_SEC,
            r.1 * 1_000_000_000 + r.2 == if self@ < 0 {
                -self@
            } else {
                self@
            },
    {
        proof {
            use_type_invariant(self);
        }
        if self.secs >= 0 {
            (false, self.secs as u64, self.nanos)
        } else if self.nanos == 0 {
            (true, (-(self.secs as i128)) as u64, 0)
        } else {
            (true, (-(self.secs as i128) - 1) as u64, NANOS_PER_SEC - self.nanos)
        }
    }

    /// The instant a whole number of seconds after (or before) the epoch.
    pub fn from_secs(secs: i64) -> (r: Instant)
        ensures
            r@ == secs * 1_000_000_000,
    {
        Instant { secs, nanos: 0 }
    }

    /// The system clock's reading; `None` where it lies before the epoch or
    /// beyond what an instant can hold.
    pub(crate) fn now() -> (r: Option<Instant>)
        ensures
            r matches Some(time) ==> time@ >= 0,
    {
        match clock_since_epoch() {
            Some((secs, nanos)) => Instant::after_epoch(secs, nanos),
            None => None,
        }
    }

    /// The instant `delta` seconds later (earlier, if `delta` is negative).
    pub fn add_secs(&self, delta: i64) -> (r: Instant)
        requires
            i64::MIN <= self.spec_secs() + delta <= i64::MAX,
        ensures
            r@ == self@ + delta * 1_000_000_000,
    {
        proof {
            use_type_invariant(self);
        }
        Instant { secs: self.secs + delta, nanos: self.nanos }
    }

    /// The whole seconds since the epoch, rounded towards the past.
    pub fn secs(&self) -> (r: i64)
        ensures
            r == self.spec_secs(),
    {
        proof {
            use_type_invariant(self);
        }
        self.secs
    }

    /// The nanoseconds past the whole second.
    pub fn subsec_nanos(&self) -> (r: u32)
        ensures
            r == self.spec_subsec_nanos(),
            r < NANOS_PER_SEC,
    {
        proof {
            use_type_invariant(self);
        }
        self.nanos
    }
}

/// `SystemTime::now`, measured from `UNIX_EPOCH` by
/// `SystemTime::duration_since`: the whole seconds and the nanoseconds
/// beyond them, or `None` where the clock reads a time before the epoch.
/// Nothing is known of the reading.
#[verifier::external_body]
fn clock_since_epoch() -> Option<(u64, u32)> {
    match SystemTime::now().duration_since(UNIX_EPOCH) {
        Ok(since) => Some((since.as_secs(), since.subsec_nanos())),
        Err(_) => None,
    }
}

/// The view of the instant that `result` holds, if it holds one.
pub open spec fn instant_view(result: Option<Instant>) -> Option<int> {
    match result {
        Some(instant) => Some(instant@),
        None => None,
    }
}

} // verus!
