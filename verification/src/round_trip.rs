//! Printing an instant and parsing the result gives the instant back.

use vstd::prelude::*;

use crate::calendar::lemma_civil_exists;
use crate::calendar::spec_civil_from_days;
use crate::instant::Instant;
use crate::parse::digits_at;
use crate::parse::number_at;
use crate::parse::spec_date_at;
use crate::parse::spec_fraction_at;
use crate::parse::spec_parse_time;
use crate::parse::spec_time_at;
use crate::parse::spec_time_recognizers;
use crate::parse::Recognizer;
use crate::print::is_printable;
use crate::print::spec_rfc3339_millis;
use crate::print::spec_rfc3339_nanos;
use crate::print::spec_seconds_text;
use crate::text::decimal_text;
use crate::text::lemma_decimal_round_trip;
use crate::text::lemma_decimal_text_digits;
use crate::text::lemma_pow10;
use crate::text::pow10;

verus! {

/// Where `text` holds `value`, written with `width` digits, from `start`
/// on, it holds digits there, and they stand for `value`.
proof fn lemma_written_number(text: Seq<char>, start: int, value: int, width: nat)
    requires
        0 <= start,
        start + width <= text.len(),
        width <= 9,
        0 <= value < pow10(width),
        text.subrange(start, start + width) == decimal_text(value, width),
    ensures
        digits_at(text, start, start + width),
        number_at(text, start, start + width) == value,
{
    lemma_decimal_text_digits(value, width);
    lemma_decimal_round_trip(value, width);
}

/// A printed second takes nineteen characters.
proof fn lemma_seconds_text_head(secs: int)
    requires
        -62_167_219_200 <= secs <= 253_402_300_799,
    ensures
        spec_seconds_text(secs).len() == 19,
{
    let days = secs / 86_400;
    let time = secs % 86_400;
    lemma_civil_exists(days);
    let date = spec_civil_from_days(days);
    lemma_decimal_text_digits(date.0, 4);
    lemma_decimal_text_digits(date.1, 2);
    lemma_decimal_text_digits(date.2, 2);
    lemma_decimal_text_digits(time / 3600, 2);
    lemma_decimal_text_digits((time / 60) % 60, 2);
    lemma_decimal_text_digits(time % 60, 2);
}

/// A text that starts with a printed second holds that second's date and
/// time of day where the recognizers look for them.
proof fn lemma_seconds_text_parses(text: Seq<char>, secs: int)
    requires
        -62_167_219_200 <= secs <= 253_402_300_799,
        text.len() >= 19,
        text.subrange(0, 19) == spec_seconds_text(secs),
    ensures
        spec_date_at(text, 0) == Some(secs / 86_400),
        spec_time_at(text, 11) == Some(secs % 86_400),
        text[10] == 'T',
{
    let days = secs / 86_400;
    let time = secs % 86_400;
    lemma_civil_exists(days);
    lemma_pow10();
    let date = spec_civil_from_days(days);
    let head = spec_seconds_text(secs);
    let year_text = decimal_text(date.0, 4);
    let month_text = decimal_text(date.1, 2);
    let day_text = decimal_text(date.2, 2);
    let hour_text = decimal_text(time / 3600, 2);
    let minute_text = decimal_text((time / 60) % 60, 2);
    let second_text = decimal_text(time % 60, 2);
    lemma_decimal_text_digits(date.0, 4);
    lemma_decimal_text_digits(date.1, 2);
    lemma_decimal_text_digits(date.2, 2);
    lemma_decimal_text_digits(time / 3600, 2);
    lemma_decimal_text_digits((time / 60) % 60, 2);
    lemma_decimal_text_digits(time % 60, 2);
    assert(head.len() == 19);
    assert forall|i: int| 0 <= i < 19 implies text[i] == head[i] by {
        assert(text.subrange(0, 19)[i] == text[i]);
    }
    assert(text.subrange(0, 4) =~= year_text);
    assert(text.subrange(5, 7) =~= month_text);
    assert(text.subrange(8, 10) =~= day_text);
    assert(text.subrange(11, 13) =~= hour_text);
    assert(text.subrange(14, 16) =~= minute_text);
    assert(text.subrange(17, 19) =~= second_text);
    assert(text[4] == '-' && text[7] == '-' && text[10] == 'T' && text[13] == ':' && text[16]
        == ':');
    lemma_written_number(text, 0, date.0, 4);
    lemma_written_number(text, 5, date.1, 2);
    lemma_written_number(text, 8, date.2, 2);
    lemma_written_number(text, 11, time / 3600, 2);
    lemma_written_number(text, 14, (time / 60) % 60, 2);
    lemma_written_number(text, 17, time % 60, 2);
}

/// A printed second, a point, a number written with `width` digits and a
/// `Z` make a time stamp in UTC, which the recognizer of such time stamps
/// reads as that second and the number as its fraction.
proof fn lemma_printed_parses(text: Seq<char>, secs: int, value: int, width: nat)
    requires
        -62_167_219_200 <= secs <= 253_402_300_799,
        1 <= width <= 9,
        0 <= value < pow10(width),
        text == spec_seconds_text(secs) + seq!['.'] + decimal_text(value, width) + seq!['Z'],
    ensures
        Recognizer::FractionalUtc.spec_recognize(text) == Some(
            secs * 1_000_000_000 + value * pow10((9 - width) as nat),
        ),
{
    let head = spec_seconds_text(secs);
    let digits = decimal_text(value, width);
    let end = 20 + width as int;
    lemma_seconds_text_head(secs);
    lemma_decimal_text_digits(value, width);
    assert(text.len() == 21 + width);
    assert(text.subrange(0, 19) =~= head);
    lemma_seconds_text_parses(text, secs);
    assert(text[19] == '.');
    assert(text[end] == 'Z');
    assert(text.subrange(20, end) =~= digits);
    lemma_written_number(text, 20, value, width);
    assert(spec_fraction_at(text, 19, end) == Some(value * pow10((9 - width) as nat)));
    assert(secs == (secs / 86_400) * 86_400 + secs % 86_400);
}

/// What the first recognizer for time stamps knows, the chain of them
/// makes of a text.
proof fn lemma_first_recognizer_decides(text: Seq<char>)
    requires
        Recognizer::FractionalUtc.spec_recognize(text) is Some,
    ensures
        spec_parse_time(text) == Recognizer::FractionalUtc.spec_recognize(text),
{
    assert(spec_time_recognizers()[0] == Recognizer::FractionalUtc);
}

/// What was printed with milliseconds parses to the instant that was
/// printed, less what it held below the millisecond.
pub proof fn lemma_parse_printed_millis(nanos: int)
    requires
        is_printable(nanos),
    ensures
        spec_parse_time(spec_rfc3339_millis(nanos)) == Some(nanos - nanos % 1_000_000),
{
    let secs = nanos / 1_000_000_000;
    let millis = (nanos % 1_000_000_000) / 1_000_000;
    lemma_pow10();
    lemma_printed_parses(spec_rfc3339_millis(nanos), secs, millis, 3);
    lemma_first_recognizer_decides(spec_rfc3339_millis(nanos));
}

/// What was printed with nanoseconds parses to the instant that was
/// printed.
pub proof fn lemma_parse_printed_nanos(nanos: int)
    requires
        is_printable(nanos),
    ensures
        spec_parse_time(spec_rfc3339_nanos(nanos)) == Some(nanos),
{
    let secs = nanos / 1_000_000_000;
    lemma_pow10();
    lemma_printed_parses(spec_rfc3339_nanos(nanos), secs, nanos % 1_000_000_000, 9);
    lemma_first_recognizer_decides(spec_rfc3339_nanos(nanos));
}

/// Round trip at millisecond resolution: an instant of the years 0000 to
/// 9999 that holds nothing below the millisecond is what parsing its
/// printed form with milliseconds gives.
pub proof fn lemma_millis_round_trip(time: Instant)
    requires
        is_printable(time@),
        time@ % 1_000_000 == 0,
    ensures
        spec_parse_time(spec_rfc3339_millis(time@)) == Some(time@),
{
    lemma_parse_printed_millis(time@);
}

/// Round trip at full resolution: an instant of the years 0000 to 9999 is
/// what parsing its printed form with nanoseconds gives.
pub proof fn lemma_nanos_round_trip(time: Instant)
    requires
        is_printable(time@),
    ensures
        spec_parse_time(spec_rfc3339_nanos(time@)) == Some(time@),
{
    lemma_parse_printed_nanos(time@);
}

} // verus!
