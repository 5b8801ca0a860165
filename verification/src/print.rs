//! Instants written as RFC 3339 time stamps in UTC.

use vstd::prelude::*;
use vstd::string::*;

use crate::calendar::civil_from_days;
use crate::calendar::lemma_civil_exists;
use crate::calendar::spec_civil_from_days;
use crate::instant::Instant;
use crate::text::decimal_text;
use crate::text::lemma_decimal_text_digits;
use crate::text::push_decimal;

verus! {

/// Whether the instant `nanos` nanoseconds after the epoch falls into the
/// years 0000 to 9999, which four digits of year can name: from
/// 62167219200 seconds before the epoch to less than 253402300800 seconds
/// after it.
pub open spec fn is_printable(nanos: int) -> bool {
    -62_167_219_200 * 1_000_000_000 <= nanos < 253_402_300_800 * 1_000_000_000
}

/// The date `days` days after 1970-01-01, written as `YYYY-MM-DD`.
pub open spec fn spec_date_text(days: int) -> Seq<char> {
    let date = spec_civil_from_days(days);
    decimal_text(date.0, 4) + seq!['-'] + decimal_text(date.1, 2) + seq!['-'] + decimal_text(
        date.2,
        2,
    )
}

/// The time `seconds` seconds after midnight, written as `HH:MM:SS`.
pub open spec fn spec_time_text(seconds: int) -> Seq<char> {
    decimal_text(seconds / 3600, 2) + seq![':'] + decimal_text((seconds / 60) % 60, 2) + seq![':']
        + decimal_text(seconds % 60, 2)
}

/// The second `secs` seconds after the epoch, written as
/// `YYYY-MM-DDTHH:MM:SS` in UTC.
pub open spec fn spec_seconds_text(secs: int) -> Seq<char> {
    spec_date_text(secs / 86_400) + seq!['T'] + spec_time_text(secs % 86_400)
}

/// The instant `nanos` nanoseconds after the epoch, written in UTC as
/// `YYYY-MM-DDTHH:MM:SS.fffZ`; what lies below the millisecond is cut off.
pub open spec fn spec_rfc3339_millis(nanos: int) -> Seq<char> {
    spec_seconds_text(nanos / 1_000_000_000) + seq!['.'] + decimal_text(
        (nanos % 1_000_000_000) / 1_000_000,
        3,
    ) + seq!['Z']
}

/// The instant `nanos` nanoseconds after the epoch, written in UTC as
/// `YYYY-MM-DDTHH:MM:SS.fffffffffZ`.
pub open spec fn spec_rfc3339_nanos(nanos: int) -> Seq<char> {
    spec_seconds_text(nanos / 1_000_000_000) + seq!['.'] + decimal_text(nanos % 1_000_000_000, 9)
        + seq!['Z']
}

/// A time stamp with milliseconds takes 24 characters, one with
/// nanoseconds 30.
pub proof fn lemma_printed_lengths(nanos: int)
    requires
        is_printable(nanos),
    ensures
        spec_rfc3339_millis(nanos).len() == 24,
        spec_rfc3339_nanos(nanos).len() == 30,
{
    let secs = nanos / 1_000_000_000;
    let fraction = nanos % 1_000_000_000;
    let time = secs % 86_400;
    lemma_civil_exists(secs / 86_400);
    let date = spec_civil_from_days(secs / 86_400);
    lemma_decimal_text_digits(date.0, 4);
    lemma_decimal_text_digits(date.1, 2);
    lemma_decimal_text_digits(date.2, 2);
    lemma_decimal_text_digits(time / 3600, 2);
    lemma_decimal_text_digits((time / 60) % 60, 2);
    lemma_decimal_text_digits(time % 60, 2);
    lemma_decimal_text_digits(fraction / 1_000_000, 3);
    lemma_decimal_text_digits(fraction, 9);
}

/// Whether `time` falls into the years 0000 to 9999, the instants that can
/// be printed.
pub fn is_printable_time(time: &Instant) -> (r: bool)
    ensures
        r == is_printable(time@),
{
    let secs = time.secs();
    -62_167_219_200 <= secs && secs <= 253_402_300_799
}

/// Appends one character, given as a text of that character alone.
fn push_mark(out: &mut String, mark: &str)
    ensures
        final(out)@ == old(out)@ + mark@,
{
    out.append(mark);
}

/// Appends the second `secs` seconds after the epoch as
/// `YYYY-MM-DDTHH:MM:SS`.
fn push_seconds(out: &mut String, secs: i64)
    requires
        -62_167_219_200 <= secs <= 253_402_300_799,
    ensures
        final(out)@ == old(out)@ + spec_seconds_text(secs as int),
{
    let since_year_zero: u64 = (secs + 62_167_219_200) as u64;
    let days: i64 = (since_year_zero / 86_400) as i64 - 719_528;
    let time: u32 = (since_year_zero % 86_400) as u32;
    assert(days == secs as int / 86_400);
    assert(time == secs as int % 86_400);
    let (year, month, day) = civil_from_days(days);
    proof {
        reveal_strlit("-");
        reveal_strlit("T");
        reveal_strlit(":");
    }
    push_decimal(out, year, 4);
    push_mark(out, "-");
    push_decimal(out, month, 2);
    push_mark(out, "-");
    push_decimal(out, day, 2);
    let ghost date = out@;
    assert(date =~= old(out)@ + spec_date_text(days as int));
    push_mark(out, "T");
    push_decimal(out, time / 3600, 2);
    push_mark(out, ":");
    push_decimal(out, (time / 60) % 60, 2);
    push_mark(out, ":");
    push_decimal(out, time % 60, 2);
    assert(out@ =~= old(out)@ + spec_seconds_text(secs as int));
}

/// Print an instant as an RFC 3339 time stamp with milliseconds.
pub fn print_system_time_to_rfc3339(time: &Instant) -> (r: String)
    requires
        is_printable(time@),
    ensures
        r@ == spec_rfc3339_millis(time@),
        r@.len() == 24,
{
    proof {
        lemma_printed_lengths(time@);
    }
    let mut out = String::new();
    push_seconds(&mut out, time.secs());
    proof {
        reveal_strlit(".");
        reveal_strlit("Z");
    }
    push_mark(&mut out, ".");
    push_decimal(&mut out, time.subsec_nanos() / 1_000_000, 3);
    push_mark(&mut out, "Z");
    assert(out@ =~= spec_rfc3339_millis(time@));
    out
}

/// Print an instant as an RFC 3339 time stamp with nanoseconds, which
/// loses nothing of it.
pub fn print_system_time_to_rfc3339_with_nanos(time: &Instant) -> (r: String)
    requires
        is_printable(time@),
    ensures
        r@ == spec_rfc3339_nanos(time@),
        r@.len() == 30,
{
    proof {
        lemma_printed_lengths(time@);
    }
    let mut out = String::new();
    push_seconds(&mut out, time.secs());
    proof {
        reveal_strlit(".");
        reveal_strlit("Z");
    }
    push_mark(&mut out, ".");
    push_decimal(&mut out, time.subsec_nanos(), 9);
    push_mark(&mut out, "Z");
    assert(out@ =~= spec_rfc3339_nanos(time@));
    out
}

} // verus!
