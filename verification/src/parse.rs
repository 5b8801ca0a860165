//! Recognizers for the textual layouts of time stamps and dates.

use vstd::prelude::*;
use vstd::string::*;
use vstd::utf8::*;

use crate::calendar::days_from_civil;
use crate::calendar::days_in_month;
use crate::calendar::is_valid_date;
use crate::calendar::spec_days_from_civil;
use crate::calendar::MAX_DAYS;
use crate::calendar::MIN_DAYS;
use crate::instant::instant_view;
use crate::instant::Instant;
use crate::text::all_digits;
use crate::text::ascii_text;
use crate::text::decimal_value;
use crate::text::is_digit;
use crate::text::lemma_decimal_value_bounds;
use crate::text::lemma_pow10;
use crate::text::lemma_pow10_increases;
use crate::text::pow10;
use crate::text::read_decimal;

verus! {

/// Whether `text` holds digits, and nothing else, from `start` up to `end`.
pub open spec fn digits_at(text: Seq<char>, start: int, end: int) -> bool {
    0 <= start <= end <= text.len() && all_digits(text.subrange(start, end))
}

/// The number that the digits of `text` from `start` up to `end` stand for.
pub open spec fn number_at(text: Seq<char>, start: int, end: int) -> int {
    decimal_value(text.subrange(start, end))
}

/// Whether `text` holds a date of the calendar at `at`, in the form
/// `YYYY-MM-DD`.
pub open spec fn holds_date_at(text: Seq<char>, at: int) -> bool {
    &&& 0 <= at && at + 10 <= text.len()
    &&& digits_at(text, at, at + 4)
    &&& text[at + 4] == '-'
    &&& digits_at(text, at + 5, at + 7)
    &&& text[at + 7] == '-'
    &&& digits_at(text, at + 8, at + 10)
    &&& is_valid_date(
        number_at(text, at, at + 4),
        number_at(text, at + 5, at + 7),
        number_at(text, at + 8, at + 10),
    )
}

/// The day count of the date that `text` holds at `at`, if it holds one
/// there.
pub open spec fn spec_date_at(text: Seq<char>, at: int) -> Option<int> {
    if holds_date_at(text, at) {
        Some(
            spec_days_from_civil(
                number_at(text, at, at + 4),
                number_at(text, at + 5, at + 7),
                number_at(text, at + 8, at + 10),
            ),
        )
    } else {
        None
    }
}

/// Whether `text` holds a time of day at `at`, in the form `HH:MM:SS`:
/// hours up to 23, minutes and seconds up to 59. There is no second 60.
pub open spec fn holds_time_at(text: Seq<char>, at: int) -> bool {
    &&& 0 <= at && at + 8 <= text.len()
    &&& digits_at(text, at, at + 2)
    &&& text[at + 2] == ':'
    &&& digits_at(text, at + 3, at + 5)
    &&& text[at + 5] == ':'
    &&& digits_at(text, at + 6, at + 8)
    &&& number_at(text, at, at + 2) <= 23
    &&& number_at(text, at + 3, at + 5) <= 59
    &&& number_at(text, at + 6, at + 8) <= 59
}

/// The seconds since midnight of the time of day that `text` holds at
/// `at`, if it holds one there.
pub open spec fn spec_time_at(text: Seq<char>, at: int) -> Option<int> {
    if holds_time_at(text, at) {
        Some(
            number_at(text, at, at + 2) * 3600 + number_at(text, at + 3, at + 5) * 60 + number_at(
                text,
                at + 6,
                at + 8,
            ),
        )
    } else {
        None
    }
}

/// Whether `text` holds the fraction of a second from `start` up to `end`:
/// a point and one to nine digits.
pub open spec fn holds_fraction_at(text: Seq<char>, start: int, end: int) -> bool {
    &&& 0 <= start && start + 2 <= end <= start + 10 && end <= text.len()
    &&& text[start] == '.'
    &&& digits_at(text, start + 1, end)
}

/// The nanoseconds of the fraction of a second that `text` holds from
/// `start` up to `end`, if it holds one there: the first digit counts
/// tenths of a second, the ninth nanoseconds.
pub open spec fn spec_fraction_at(text: Seq<char>, start: int, end: int) -> Option<int> {
    if holds_fraction_at(text, start, end) {
        Some(number_at(text, start + 1, end) * pow10((start + 10 - end) as nat))
    } else {
        None
    }
}

/// Whether `text` holds an offset from UTC at `at`, in the form `+HH:MM` or
/// `-HH:MM`, with at most 23 hours and 59 minutes.
pub open spec fn holds_offset_at(text: Seq<char>, at: int) -> bool {
    &&& 0 <= at && at + 6 <= text.len()
    &&& text[at] == '+' || text[at] == '-'
    &&& digits_at(text, at + 1, at + 3)
    &&& text[at + 3] == ':'
    &&& digits_at(text, at + 4, at + 6)
    &&& number_at(text, at + 1, at + 3) <= 23
    &&& number_at(text, at + 4, at + 6) <= 59
}

/// The seconds east of UTC of the offset that `text` holds at `at`, if it
/// holds one there; negative for an offset to the west.
pub open spec fn spec_offset_at(text: Seq<char>, at: int) -> Option<int> {
    if holds_offset_at(text, at) {
        let seconds = number_at(text, at + 1, at + 3) * 3600 + number_at(text, at + 4, at + 6)
            * 60;
        if text[at] == '-' {
            Some(-seconds)
        } else {
            Some(seconds)
        }
    } else {
        None
    }
}

/// The nanoseconds since the epoch of the instant that is `days` days,
/// `time` seconds and `nanos` nanoseconds after 1970-01-01T00:00:00 on a
/// clock that runs `offset` seconds ahead of UTC; `None` if a part is
/// missing.
pub open spec fn spec_instant_of(
    days: Option<int>,
    time: Option<int>,
    nanos: Option<int>,
    offset: Option<int>,
) -> Option<int> {
    if days is Some && time is Some && nanos is Some && offset is Some {
        Some((days->0 * 86_400 + time->0 - offset->0) * 1_000_000_000 + nanos->0)
    } else {
        None
    }
}

/// One textual layout of a point in time.
#[derive(Clone, Copy, Debug, PartialEq, Eq, Structural)]
pub enum Recognizer {
    /// `YYYY-MM-DDTHH:MM:SS.fZ`, with one to nine digits of fraction: a
    /// time in UTC.
    FractionalUtc,
    /// `YYYY-MM-DDTHH:MM:SSZ`: a time in UTC, to the second.
    WholeUtc,
    /// `YYYY-MM-DDTHH:MM:SS.f+HH:MM` or `...-HH:MM`, with one to nine digits
    /// of fraction: a time on a clock with the given offset from UTC.
    FractionalOffset,
    /// `YYYY-MM-DD`: midnight UTC on that date.
    Date,
}

impl Recognizer {
    /// The instant that `text` denotes in this layout, in nanoseconds since
    /// the epoch; `None` where `text` is not of this layout.
    pub open spec fn spec_recognize(self, text: Seq<char>) -> Option<int> {
        let len = text.len() as int;
        match self {
            Recognizer::FractionalUtc => if 22 <= len <= 30 && text[10] == 'T' && text[len - 1]
                == 'Z' {
                spec_instant_of(
                    spec_date_at(text, 0),
                    spec_time_at(text, 11),
                    spec_fraction_at(text, 19, len - 1),
                    Some(0),
                )
            } else {
                None
            },
            Recognizer::WholeUtc => if len == 20 && text[10] == 'T' && text[19] == 'Z' {
                spec_instant_of(spec_date_at(text, 0), spec_time_at(text, 11), Some(0), Some(0))
            } else {
                None
            },
            Recognizer::FractionalOffset => if 27 <= len <= 35 && text[10] == 'T' {
                spec_instant_of(
                    spec_date_at(text, 0),
                    spec_time_at(text, 11),
                    spec_fraction_at(text, 19, len - 6),
                    spec_offset_at(text, len - 6),
                )
            } else {
                None
            },
            Recognizer::Date => if len == 10 {
                spec_instant_of(spec_date_at(text, 0), Some(0), Some(0), Some(0))
            } else {
                None
            },
        }
    }
}

/// What the first recognizer of the chain that knows `text` makes of it;
/// `None` where none of them does.
pub open spec fn spec_first_match(text: Seq<char>, chain: Seq<Recognizer>) -> Option<int>
    decreases chain.len(),
{
    if chain.len() == 0 {
        None
    } else if chain[0].spec_recognize(text) is Some {
        chain[0].spec_recognize(text)
    } else {
        spec_first_match(text, chain.drop_first())
    }
}

/// The layouts of a time stamp, in the order in which they are tried.
pub open spec fn spec_time_recognizers() -> Seq<Recognizer> {
    seq![Recognizer::FractionalUtc, Recognizer::WholeUtc, Recognizer::FractionalOffset]
}

/// The layouts of a date, in the order in which they are tried.
pub open spec fn spec_date_recognizers() -> Seq<Recognizer> {
    seq![Recognizer::Date]
}

/// The instant that the time stamp `text` denotes, in nanoseconds since the
/// epoch.
pub open spec fn spec_parse_time(text: Seq<char>) -> Option<int> {
    spec_first_match(text, spec_time_recognizers())
}

/// Midnight UTC of the date that `text` denotes, in nanoseconds since the
/// epoch.
pub open spec fn spec_parse_date(text: Seq<char>) -> Option<int> {
    spec_first_match(text, spec_date_recognizers())
}

/// Every character that a recognizer accepts is a digit or one of the
/// marks `-`, `:`, `.`, `+`, `T` and `Z`.
pub open spec fn is_layout_char(c: char) -> bool {
    is_digit(c) || c == '-' || c == ':' || c == '.' || c == '+' || c == 'T' || c == 'Z'
}

/// The digits of a run of digits are digits, place by place.
proof fn lemma_digits_at(text: Seq<char>, start: int, end: int, i: int)
    requires
        digits_at(text, start, end),
        start <= i < end,
    ensures
        is_digit(text[i]),
{
    assert(text.subrange(start, end)[i - start] == text[i]);
}

/// A run of at most nine digits stands for a number below ten to the power
/// of its length.
proof fn lemma_number_at_bounds(text: Seq<char>, start: int, end: int)
    requires
        digits_at(text, start, end),
    ensures
        0 <= number_at(text, start, end) < pow10((end - start) as nat),
{
    lemma_decimal_value_bounds(text.subrange(start, end));
}

/// The days of the date at `at`, in the form `YYYY-MM-DD`.
fn read_date(bytes: &[u8], at: usize) -> (r: Option<i64>)
    requires
        at + 10 <= bytes.len(),
    ensures
        r is Some <==> spec_date_at(ascii_text(bytes@), at as int) is Some,
        r matches Some(days) ==> spec_date_at(ascii_text(bytes@), at as int) == Some(days as int)
            && MIN_DAYS <= days <= MAX_DAYS,
{
    let ghost text = ascii_text(bytes@);
    if bytes[at + 4] != '-' as u8 || bytes[at + 7] != '-' as u8 {
        return None;
    }
    let year = read_decimal(bytes, at, at + 4);
    let month = read_decimal(bytes, at + 5, at + 7);
    let day = read_decimal(bytes, at + 8, at + 10);
    match (year, month, day) {
        (Some(year), Some(month), Some(day)) => {
            proof {
                lemma_pow10();
                lemma_number_at_bounds(text, at as int, at + 4);
            }
            if 1 <= month && month <= 12 && 1 <= day && day <= days_in_month(year, month) {
                Some(days_from_civil(year, month, day))
            } else {
                None
            }
        },
        _ => None,
    }
}

/// The seconds since midnight of the time at `at`, in the form `HH:MM:SS`.
fn read_time(bytes: &[u8], at: usize) -> (r: Option<u32>)
    requires
        at + 8 <= bytes.len(),
    ensures
        r is Some <==> spec_time_at(ascii_text(bytes@), at as int) is Some,
        r matches Some(seconds) ==> spec_time_at(ascii_text(bytes@), at as int) == Some(
            seconds as int,
        ) && seconds < 86_400,
{
    if bytes[at + 2] != ':' as u8 || bytes[at + 5] != ':' as u8 {
        return None;
    }
    let hour = read_decimal(bytes, at, at + 2);
    let minute = read_decimal(bytes, at + 3, at + 5);
    let second = read_decimal(bytes, at + 6, at + 8);
    match (hour, minute, second) {
        (Some(hour), Some(minute), Some(second)) => {
            if hour <= 23 && minute <= 59 && second <= 59 {
                Some(hour * 3600 + minute * 60 + second)
            } else {
                None
            }
        },
        _ => None,
    }
}

/// The nanoseconds of the fraction from `start` up to `end`: a point and
/// one to nine digits.
fn read_fraction(bytes: &[u8], start: usize, end: usize) -> (r: Option<u32>)
    requires
        start + 2 <= end <= start + 10,
        end <= bytes.len(),
    ensures
        r is Some <==> spec_fraction_at(ascii_text(bytes@), start as int, end as int) is Some,
        r matches Some(nanos) ==> spec_fraction_at(ascii_text(bytes@), start as int, end as int)
            == Some(nanos as int) && nanos < 1_000_000_000,
{
    let ghost text = ascii_text(bytes@);
    if bytes[start] != '.' as u8 {
        return None;
    }
    match read_decimal(bytes, start + 1, end) {
        Some(digits) => {
            let mut nanos: u32 = digits;
            let mut width: usize = end - start - 1;
            proof {
                lemma_number_at_bounds(text, start + 1, end as int);
                lemma_pow10();
            }
            while width < 9
                invariant
                    1 <= width <= 9,
                    0 <= nanos < pow10(width as nat),
                    nanos * pow10((9 - width) as nat) == digits * pow10(
                        (start + 10 - end) as nat,
                    ),
                decreases 9 - width,
            {
                proof {
                    lemma_pow10();
                    let rest = pow10((9 - width) as nat);
                    let less = pow10((8 - width) as nat);
                    assert(rest == 10 * less);
                    assert((nanos * 10) * less == nanos * rest) by (nonlinear_arith)
                        requires
                            rest == 10 * less,
                    ;
                    assert(pow10((width + 1) as nat) == 10 * pow10(width as nat));
                    assert(pow10(width as nat) <= 100_000_000) by {
                        lemma_pow10_increases(width as nat, 8);
                    }
                }
                nanos = nanos * 10;
                width = width + 1;
            }
            proof {
                lemma_pow10();
            }
            Some(nanos)
        },
        None => None,
    }
}

/// The seconds east of UTC of the offset at `at`, in the form `+HH:MM` or
/// `-HH:MM`.
fn read_offset(bytes: &[u8], at: usize) -> (r: Option<i32>)
    requires
        at + 6 <= bytes.len(),
    ensures
        r is Some <==> spec_offset_at(ascii_text(bytes@), at as int) is Some,
        r matches Some(seconds) ==> spec_offset_at(ascii_text(bytes@), at as int) == Some(
            seconds as int,
        ) && -86_400 < seconds < 86_400,
{
    let sign: u8 = bytes[at];
    if (sign != '+' as u8 && sign != '-' as u8) || bytes[at + 3] != ':' as u8 {
        return None;
    }
    let hours = read_decimal(bytes, at + 1, at + 3);
    let minutes = read_decimal(bytes, at + 4, at + 6);
    match (hours, minutes) {
        (Some(hours), Some(minutes)) => {
            if hours <= 23 && minutes <= 59 {
                let seconds: i32 = (hours * 3600 + minutes * 60) as i32;
                if sign == '-' as u8 {
                    Some(-seconds)
                } else {
                    Some(seconds)
                }
            } else {
                None
            }
        },
        _ => None,
    }
}

/// What a recognizer accepts is made of layout characters only, and so of
/// ASCII.
pub proof fn lemma_recognized_is_ascii(recognizer: Recognizer, text: Seq<char>)
    requires
        recognizer.spec_recognize(text) is Some,
    ensures
        forall|i: int| 0 <= i < text.len() ==> is_layout_char(#[trigger] text[i]),
        is_ascii_chars(text),
{
    let len = text.len() as int;
    let fraction_end = match recognizer {
        Recognizer::FractionalUtc => len - 1,
        Recognizer::FractionalOffset => len - 6,
        _ => 19,
    };
    assert forall|i: int| 0 <= i < len implies is_layout_char(#[trigger] text[i]) by {
        if i < 4 {
            lemma_digits_at(text, 0, 4, i);
        } else if 5 <= i < 7 {
            lemma_digits_at(text, 5, 7, i);
        } else if 8 <= i < 10 {
            lemma_digits_at(text, 8, 10, i);
        } else if 11 <= i < 13 {
            lemma_digits_at(text, 11, 13, i);
        } else if 14 <= i < 16 {
            lemma_digits_at(text, 14, 16, i);
        } else if 17 <= i < 19 {
            lemma_digits_at(text, 17, 19, i);
        } else if 20 <= i < fraction_end {
            lemma_digits_at(text, 20, fraction_end, i);
        } else if recognizer == Recognizer::FractionalOffset {
            if len - 5 <= i < len - 3 {
                lemma_digits_at(text, len - 5, len - 3, i);
            } else if len - 2 <= i {
                lemma_digits_at(text, len - 2, len, i);
            }
        }
    }
    assert forall|i: int| 0 <= i < len implies '\0' <= #[trigger] text[i] <= '\u{7f}' by {
        assert(is_layout_char(text[i]));
    }
}

/// No text is of two layouts: where one recognizer knows a text, no other
/// does, and so the order of a chain decides nothing but the effort.
pub proof fn lemma_recognizers_exclusive(first: Recognizer, second: Recognizer, text: Seq<char>)
    requires
        first != second,
        first.spec_recognize(text) is Some,
    ensures
        second.spec_recognize(text) is None,
{
    let len = text.len() as int;
    if first == Recognizer::FractionalOffset || second == Recognizer::FractionalOffset {
        if 27 <= len <= 35 && holds_offset_at(text, len - 6) {
            lemma_digits_at(text, len - 2, len, len - 1);
        }
    }
}

impl Recognizer {
    /// The instant that the ASCII text `bytes` denotes in this layout.
    fn recognize_ascii(&self, bytes: &[u8]) -> (r: Option<Instant>)
        ensures
            instant_view(r) == self.spec_recognize(ascii_text(bytes@)),
    {
        let len = bytes.len();
        let (fraction_end, offset_at): (usize, usize) = match self {
            Recognizer::FractionalUtc => {
                if len < 22 || len > 30 || bytes[len - 1] != 'Z' as u8 {
                    return None;
                }
                (len - 1, len)
            },
            Recognizer::WholeUtc => {
                if len != 20 || bytes[19] != 'Z' as u8 {
                    return None;
                }
                (19, len)
            },
            Recognizer::FractionalOffset => {
                if len < 27 || len > 35 {
                    return None;
                }
                (len - 6, len - 6)
            },
            Recognizer::Date => {
                if len != 10 {
                    return None;
                }
                (10, len)
            },
        };
        let days = match read_date(bytes, 0) {
            Some(days) => days,
            None => {
                return None;
            },
        };
        if len == 10 {
            return Some(Instant::from_secs(days * 86_400));
        }
        if bytes[10] != 'T' as u8 {
            return None;
        }
        let time = match read_time(bytes, 11) {
            Some(time) => time,
            None => {
                return None;
            },
        };
        let nanos: u32 = if fraction_end == 19 {
            0
        } else {
            match read_fraction(bytes, 19, fraction_end) {
                Some(nanos) => nanos,
                None => {
                    return None;
                },
            }
        };
        let offset: i32 = if offset_at == len {
            0
        } else {
            match read_offset(bytes, offset_at) {
                Some(offset) => offset,
                None => {
                    return None;
                },
            }
        };
        Some(Instant::from_parts(days * 86_400 + time as i64 - offset as i64, nanos))
    }

    /// The instant that `text` denotes in this layout; `None` where `text`
    /// is not of this layout.
    pub fn recognize(&self, text: &str) -> (r: Option<Instant>)
        ensures
            instant_view(r) == self.spec_recognize(text@),
    {
        if text.is_ascii() {
            let bytes = text.as_bytes();
            proof {
                is_ascii_spec_bytes(text);
                assert(ascii_text(bytes@) =~= text@);
            }
            self.recognize_ascii(bytes)
        } else {
            proof {
                if self.spec_recognize(text@) is Some {
                    lemma_recognized_is_ascii(*self, text@);
                }
            }
            None
        }
    }
}

/// The recognizers for a time stamp, in the order in which they are tried.
pub fn time_recognizers() -> (r: [Recognizer; 3])
    ensures
        r@ == spec_time_recognizers(),
{
    let r = [Recognizer::FractionalUtc, Recognizer::WholeUtc, Recognizer::FractionalOffset];
    assert(r@ =~= spec_time_recognizers());
    r
}

/// The recognizers for a date, in the order in which they are tried.
pub fn date_recognizers() -> (r: [Recognizer; 1])
    ensures
        r@ == spec_date_recognizers(),
{
    let r = [Recognizer::Date];
    assert(r@ =~= spec_date_recognizers());
    r
}

/// Where no recognizer of a chain's front part knows a text, the chain
/// makes of the text what its rest makes of it.
proof fn lemma_first_match_skips(text: Seq<char>, chain: Seq<Recognizer>, tried: int)
    requires
        0 <= tried <= chain.len(),
        forall|i: int| 0 <= i < tried ==> (#[trigger] chain[i]).spec_recognize(text) is None,
    ensures
        spec_first_match(text, chain) == spec_first_match(
            text,
            chain.subrange(tried, chain.len() as int),
        ),
    decreases tried,
{
    if tried == 0 {
        assert(chain.subrange(0, chain.len() as int) =~= chain);
    } else {
        let rest = chain.drop_first();
        assert(chain[0].spec_recognize(text) is None);
        assert forall|i: int| 0 <= i < tried - 1 implies (#[trigger] rest[i]).spec_recognize(
            text,
        ) is None by {
            assert(rest[i] == chain[i + 1]);
        }
        lemma_first_match_skips(text, rest, tried - 1);
        assert(rest.subrange(tried - 1, rest.len() as int) =~= chain.subrange(
            tried,
            chain.len() as int,
        ));
    }
}

/// Parse an instant from a string using any of the provided recognizers:
/// the first of them that knows the string decides.
pub fn parse_system_time_from_str_impl(time: &str, parse_fns: &[Recognizer]) -> (r: Option<
    Instant,
>)
    ensures
        instant_view(r) == spec_first_match(time@, parse_fns@),
{
    let mut i: usize = 0;
    while i < parse_fns.len()
        invariant
            0 <= i <= parse_fns.len(),
            forall|j: int| 0 <= j < i ==> (#[trigger] parse_fns@[j]).spec_recognize(time@) is None,
        decreases parse_fns.len() - i,
    {
        let found = parse_fns[i].recognize(time);
        if found.is_some() {
            proof {
                lemma_first_match_skips(time@, parse_fns@, i as int);
                let rest = parse_fns@.subrange(i as int, parse_fns@.len() as int);
                assert(rest[0] == parse_fns@[i as int]);
            }
            return found;
        }
        i = i + 1;
    }
    proof {
        lemma_first_match_skips(time@, parse_fns@, i as int);
    }
    None
}

/// Parse an instant from a time stamp: `YYYY-MM-DDTHH:MM:SS.fZ`,
/// `YYYY-MM-DDTHH:MM:SSZ` or `YYYY-MM-DDTHH:MM:SS.f+HH:MM`.
pub fn parse_system_time_from_str(time: &str) -> (r: Option<Instant>)
    ensures
        instant_view(r) == spec_parse_time(time@),
{
    let recognizers = time_recognizers();
    parse_system_time_from_str_impl(time, recognizers.as_slice())
}

/// Parse an instant from a date of the form `YYYY-MM-DD`: midnight UTC on
/// that date.
pub fn parse_system_time_from_date_str(time: &str) -> (r: Option<Instant>)
    ensures
        instant_view(r) == spec_parse_date(time@),
{
    let recognizers = date_recognizers();
    parse_system_time_from_str_impl(time, recognizers.as_slice())
}

} // verus!
