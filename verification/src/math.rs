//! Day-boundary arithmetic on instants.

use vstd::prelude::*;

use crate::instant::instant_view;
use crate::instant::Instant;

verus! {

/// The number of seconds in a day.
pub const DAY_SECS: u32 = 24 * 60 * 60;

/// `value` moved up to the next multiple of `round_to`, or `value` itself
/// where it already is a multiple.
pub open spec fn spec_round_up(value: int, round_to: int) -> int {
    value + (round_to - value % round_to) % round_to
}

/// The first second of the day after the one that `secs` falls into, counted
/// in seconds since the epoch; a second that starts a day stands for itself.
pub open spec fn next_day_secs(secs: int) -> int {
    spec_round_up(secs, 86_400)
}

/// Whether `nanos` nanoseconds after the epoch a day begins.
pub open spec fn is_midnight(nanos: int) -> bool {
    nanos % 86_400_000_000_000 == 0
}

/// Rounding up yields a multiple of `round_to` that lies less than
/// `round_to` above `value`.
pub proof fn lemma_round_up_multiple(value: int, round_to: int)
    requires
        round_to > 0,
    ensures
        spec_round_up(value, round_to) % round_to == 0,
        value <= spec_round_up(value, round_to) < value + round_to,
{
    let r = spec_round_up(value, round_to);
    let q = value / round_to;
    assert(value == q * round_to + value % round_to) by (nonlinear_arith)
        requires
            round_to > 0,
            q == value / round_to,
    ;
    if value % round_to == 0 {
        assert(round_to % round_to == 0) by (nonlinear_arith)
            requires
                round_to > 0,
        ;
    } else {
        assert(r == (q + 1) * round_to) by (nonlinear_arith)
            requires
                r == value + (round_to - value % round_to) % round_to,
                value == q * round_to + value % round_to,
                0 < value % round_to < round_to,
        ;
        assert(((q + 1) * round_to) % round_to == 0) by (nonlinear_arith)
            requires
                round_to > 0,
        ;
    }
}

/// No multiple of `round_to` lies between `value` and what rounding up
/// yields.
pub proof fn lemma_round_up_least(value: int, round_to: int, multiple: int)
    requires
        round_to > 0,
        multiple % round_to == 0,
        value <= multiple,
    ensures
        spec_round_up(value, round_to) <= multiple,
{
    let r = spec_round_up(value, round_to);
    lemma_round_up_multiple(value, round_to);
    if multiple < r {
        let k = multiple / round_to;
        let j = r / round_to;
        assert(false) by (nonlinear_arith)
            requires
                round_to > 0,
                k == multiple / round_to,
                multiple % round_to == 0,
                j == r / round_to,
                r % round_to == 0,
                value <= multiple < r < value + round_to,
        ;
    }
}

/// `math_util::round_up` on unsigned 64-bit values: the sum of `value` and
/// of what it lacks to the next multiple of `round_to`, as the function's
/// one expression computes it. Division by zero and a sum beyond `u64` are
/// left out.
#[verifier::external_body]
fn round_up(value: u64, round_to: u64) -> (r: u64)
    requires
        round_to > 0,
        spec_round_up(value as int, round_to as int) <= u64::MAX,
    ensures
        r == spec_round_up(value as int, round_to as int),
{
    math_util::round_up(value, round_to)
}

/// The seconds between the epoch and the first midnight that is not before
/// the whole second of `now`.
pub fn next_day_duration(now: Instant) -> (r: u64)
    requires
        now@ >= 0,
    ensures
        r == next_day_secs(now.spec_secs()),
        r % 86_400 == 0,
        now.spec_secs() <= r < now.spec_secs() + 86_400,
{
    let secs = now.secs();
    proof {
        assert(DAY_SECS == 86_400);
        lemma_round_up_multiple(secs as int, 86_400);
    }
    round_up(secs as u64, DAY_SECS as u64)
}

/// Calculate the time stamp representing the next day of the given time
/// stamp.
///
/// A time stamp whose whole second marks precisely midnight does not
/// advance to the next day.
pub fn next_day(now: Instant) -> (r: Instant)
    requires
        now@ >= 0,
        next_day_secs(now.spec_secs()) <= i64::MAX,
    ensures
        r@ == next_day_secs(now.spec_secs()) * 1_000_000_000,
        is_midnight(r@),
        now.spec_secs() * 1_000_000_000 <= r@ < (now.spec_secs() + 86_400) * 1_000_000_000,
{
    let duration = next_day_duration(now);
    Instant::from_secs(duration as i64)
}

/// The next day of `now` as [`next_day`] gives it; `None` where `now` lies
/// before the epoch or the next day beyond what an instant can hold.
pub fn checked_next_day(now: Instant) -> (r: Option<Instant>)
    ensures
        instant_view(r) == if now@ >= 0 && next_day_secs(now.spec_secs()) <= i64::MAX {
            Some(next_day_secs(now.spec_secs()) * 1_000_000_000)
        } else {
            None
        },
{
    if now.secs() >= 0 && next_day_duration(now) <= i64::MAX as u64 {
        Some(next_day(now))
    } else {
        None
    }
}

/// The midnight that lies `count` whole days before the one that
/// [`next_day`] gives for `now`, and one day more.
pub fn days_back_from(now: Instant, count: u32) -> (r: Instant)
    requires
        now@ >= 0,
        (count + 1) * 86_400 <= next_day_secs(now.spec_secs()),
    ensures
        r@ == (next_day_secs(now.spec_secs()) - (count + 1) * 86_400) * 1_000_000_000,
        is_midnight(r@),
        r@ >= 0,
{
    proof {
        use_type_invariant(&now);
        now.lemma_secs_bounds();
        assert(DAY_SECS == 86_400);
    }
    let back = (DAY_SECS as u64) * (count as u64 + 1);
    let duration = next_day_duration(now) - back;
    Instant::from_secs(duration as i64)
}

/// The midnight of [`days_back_from`]; `None` where `now` lies before the
/// epoch or that midnight would.
pub fn checked_days_back_from(now: Instant, count: u32) -> (r: Option<Instant>)
    ensures
        instant_view(r) == if now@ >= 0 && (count + 1) * 86_400 <= next_day_secs(
            now.spec_secs(),
        ) {
            Some((next_day_secs(now.spec_secs()) - (count + 1) * 86_400) * 1_000_000_000)
        } else {
            None
        },
{
    assert(DAY_SECS == 86_400);
    let back = (DAY_SECS as u64) * (count as u64 + 1);
    if now.secs() >= 0 && back <= next_day_duration(now) {
        Some(days_back_from(now, count))
    } else {
        None
    }
}

/// The midnight `count` whole days, and one more, before the coming one,
/// by the system clock; `None` where the clock reads a time before the
/// epoch or one that lies less than that many days after it. Whatever the
/// clock reads, a midnight that comes back is the one that
/// [`days_back_from`] gives for `count` and some second that is not before
/// the epoch.
pub fn days_back(count: u32) -> (r: Option<Instant>)
    ensures
        r matches Some(midnight) ==> midnight@ >= 0 && is_midnight(midnight@),
        r matches Some(midnight) ==> exists|secs: int|
            0 <= secs <= i64::MAX && midnight@ == (#[trigger] next_day_secs(secs) - (count + 1)
                * 86_400) * 1_000_000_000,
{
    match Instant::now() {
        Some(now) => {
            let back = checked_days_back_from(now, count);
            proof {
                use_type_invariant(&now);
                now.lemma_secs_bounds();
                if back is Some {
                    let secs = now.spec_secs();
                    assert(0 <= secs <= i64::MAX && back->0@ == (next_day_secs(secs) - (count + 1)
                        * 86_400) * 1_000_000_000);
                }
            }
            back
        },
        None => None,
    }
}

/// Calculate an instant representing 0:00:00 (i.e., the first second of)
/// the next day, by the system clock; `None` where the clock reads a time
/// before the epoch or beyond what an instant can hold.
pub fn tomorrow() -> (r: Option<Instant>)
    ensures
        r matches Some(midnight) ==> midnight@ >= 0 && is_midnight(midnight@),
{
    match Instant::now() {
        Some(now) => checked_next_day(now),
        None => None,
    }
}

} // verus!
