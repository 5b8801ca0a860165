//! Decimal numbers in text: what a run of digits stands for, and how a
//! number is written with a fixed count of digits.

use vstd::prelude::*;
use vstd::string::*;

verus! {

/// Whether `c` is one of the digits `0` to `9`.
pub open spec fn is_digit(c: char) -> bool {
    '0' <= c && c <= '9'
}

/// The number that the digit `c` stands for.
pub open spec fn digit_value(c: char) -> int {
    c as int - '0' as int
}

/// The digit that stands for `d`, a number from 0 to 9.
pub open spec fn digit_char(d: int) -> char {
    (d + 48) as u8 as char
}

/// Whether `text` holds digits only.
pub open spec fn all_digits(text: Seq<char>) -> bool {
    forall|i: int| 0 <= i < text.len() ==> is_digit(#[trigger] text[i])
}

/// The number that `text`, a run of digits, stands for in base ten.
pub open spec fn decimal_value(text: Seq<char>) -> int
    decreases text.len(),
{
    if text.len() == 0 {
        0
    } else {
        decimal_value(text.drop_last()) * 10 + digit_value(text.last())
    }
}

/// Ten to the power of `n`.
pub open spec fn pow10(n: nat) -> int
    decreases n,
{
    if n == 0 {
        1
    } else {
        10 * pow10((n - 1) as nat)
    }
}

/// `value` written in base ten with exactly `width` digits, zeros first.
pub open spec fn decimal_text(value: int, width: nat) -> Seq<char>
    decreases width,
{
    if width == 0 {
        Seq::empty()
    } else {
        decimal_text(value / 10, (width - 1) as nat).push(digit_char(value % 10))
    }
}

/// The characters that a sequence of ASCII bytes encodes.
pub open spec fn ascii_text(bytes: Seq<u8>) -> Seq<char> {
    Seq::new(bytes.len(), |i: int| bytes[i] as char)
}

/// The powers of ten up to the ninth.
pub proof fn lemma_pow10()
    ensures
        pow10(0) == 1,
        pow10(1) == 10,
        pow10(2) == 100,
        pow10(3) == 1_000,
        pow10(4) == 10_000,
        pow10(5) == 100_000,
        pow10(6) == 1_000_000,
        pow10(7) == 10_000_000,
        pow10(8) == 100_000_000,
        pow10(9) == 1_000_000_000,
{
    reveal_with_fuel(pow10, 10);
}

/// Larger exponents give larger powers of ten.
pub proof fn lemma_pow10_increases(smaller: nat, larger: nat)
    requires
        smaller <= larger,
    ensures
        0 < pow10(smaller) <= pow10(larger),
    decreases larger,
{
    if smaller < larger {
        lemma_pow10_increases(smaller, (larger - 1) as nat);
    } else if larger > 0 {
        lemma_pow10_increases((smaller - 1) as nat, (larger - 1) as nat);
    }
}

/// A number written with `width` digits takes `width` characters, all of
/// them digits.
pub proof fn lemma_decimal_text_digits(value: int, width: nat)
    requires
        0 <= value,
    ensures
        decimal_text(value, width).len() == width,
        all_digits(decimal_text(value, width)),
    decreases width,
{
    if width > 0 {
        lemma_decimal_text_digits(value / 10, (width - 1) as nat);
    }
}

/// Reading back a number that was written with enough digits gives the
/// number.
pub proof fn lemma_decimal_round_trip(value: int, width: nat)
    requires
        0 <= value < pow10(width),
    ensures
        decimal_value(decimal_text(value, width)) == value,
    decreases width,
{
    if width > 0 {
        let rest = decimal_text(value / 10, (width - 1) as nat);
        lemma_decimal_round_trip(value / 10, (width - 1) as nat);
        assert(rest.push(digit_char(value % 10)).drop_last() =~= rest);
    }
}

/// A run of digits stands for a number below ten to the power of its
/// length.
pub proof fn lemma_decimal_value_bounds(text: Seq<char>)
    requires
        all_digits(text),
    ensures
        0 <= decimal_value(text) < pow10(text.len()),
    decreases text.len(),
{
    if text.len() > 0 {
        lemma_decimal_value_bounds(text.drop_last());
    }
}

/// The number that the digits from `start` up to `end` stand for, or `None`
/// where one of these bytes is no digit.
pub fn read_decimal(bytes: &[u8], start: usize, end: usize) -> (r: Option<u32>)
    requires
        start <= end <= bytes.len(),
        end - start <= 9,
    ensures
        r is Some <==> all_digits(ascii_text(bytes@).subrange(start as int, end as int)),
        r matches Some(value) ==> value == decimal_value(
            ascii_text(bytes@).subrange(start as int, end as int),
        ),
{
    let ghost text = ascii_text(bytes@);
    let mut value: u32 = 0;
    let mut i: usize = start;
    while i < end
        invariant
            start <= i <= end <= bytes.len(),
            end - start <= 9,
            text == ascii_text(bytes@),
            all_digits(text.subrange(start as int, i as int)),
            value == decimal_value(text.subrange(start as int, i as int)),
        decreases end - i,
    {
        let byte: u8 = bytes[i];
        let ghost before = text.subrange(start as int, i as int);
        let ghost now = text.subrange(start as int, i + 1);
        proof {
            assert(now.drop_last() =~= before);
            assert(now.last() == byte as char);
        }
        if byte < 48 || byte > 57 {
            proof {
                let whole = text.subrange(start as int, end as int);
                assert(whole[i - start] == byte as char);
            }
            return None;
        }
        proof {
            lemma_decimal_value_bounds(before);
            lemma_pow10();
            assert(pow10(before.len()) <= pow10(8)) by {
                lemma_pow10_increases(before.len(), 8);
            }
            assert forall|j: int| 0 <= j < now.len() implies is_digit(#[trigger] now[j]) by {
                if j < now.len() - 1 {
                    assert(now[j] == before[j]);
                }
            }
        }
        value = value * 10 + (byte - 48) as u32;
        i = i + 1;
    }
    Some(value)
}

/// The one-character text of the digit for `d`.
fn digit_str(d: u32) -> (r: &'static str)
    requires
        d <= 9,
    ensures
        r@ == seq![digit_char(d as int)],
{
    proof {
        reveal_strlit("0");
        reveal_strlit("1");
        reveal_strlit("2");
        reveal_strlit("3");
        reveal_strlit("4");
        reveal_strlit("5");
        reveal_strlit("6");
        reveal_strlit("7");
        reveal_strlit("8");
        reveal_strlit("9");
    }
    let r = if d == 0 {
        "0"
    } else if d == 1 {
        "1"
    } else if d == 2 {
        "2"
    } else if d == 3 {
        "3"
    } else if d == 4 {
        "4"
    } else if d == 5 {
        "5"
    } else if d == 6 {
        "6"
    } else if d == 7 {
        "7"
    } else if d == 8 {
        "8"
    } else {
        "9"
    };
    assert(r@ =~= seq![digit_char(d as int)]);
    r
}

/// Appends `value` to `out`, written with exactly `width` digits.
pub fn push_decimal(out: &mut String, value: u32, width: u32)
    ensures
        final(out)@ == old(out)@ + decimal_text(value as int, width as nat),
    decreases width,
{
    if width > 0 {
        push_decimal(out, value / 10, width - 1);
        out.append(digit_str(value % 10));
        proof {
            let head = decimal_text((value / 10) as int, (width - 1) as nat);
            assert(old(out)@ + head + seq![digit_char((value % 10) as int)] =~= old(out)@
                + head.push(digit_char((value % 10) as int)));
        }
    } else {
        assert(old(out)@ + decimal_text(value as int, 0) =~= old(out)@);
    }
}

} // verus!
