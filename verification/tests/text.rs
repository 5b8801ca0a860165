use time_util::parse::date_recognizers;
use time_util::parse::time_recognizers;
use time_util::parse::Recognizer;
use time_util::text::push_decimal;
use time_util::text::read_decimal;

#[test]
fn numbers_are_written_with_a_fixed_count_of_digits() {
    let mut out = String::from("x");
    push_decimal(&mut out, 7, 2);
    assert_eq!(out, "x07");
    push_decimal(&mut out, 2019, 4);
    assert_eq!(out, "x072019");
    push_decimal(&mut out, 0, 3);
    assert_eq!(out, "x072019000");
    push_decimal(&mut out, 50_937_231, 9);
    assert_eq!(out, "x072019000050937231");
    push_decimal(&mut out, 5, 0);
    assert_eq!(out, "x072019000050937231");
    // Digits that do not fit are left out, from the front.
    push_decimal(&mut out, 12_345, 2);
    assert_eq!(out, "x07201900005093723145");
}

#[test]
fn runs_of_digits_are_read_as_numbers() {
    let bytes = "2019-08-01x".as_bytes();
    assert_eq!(read_decimal(bytes, 0, 4), Some(2019));
    assert_eq!(read_decimal(bytes, 5, 7), Some(8));
    assert_eq!(read_decimal(bytes, 8, 10), Some(1));
    assert_eq!(read_decimal(bytes, 3, 3), Some(0));
    assert_eq!(read_decimal(bytes, 3, 5), None);
    assert_eq!(read_decimal(bytes, 8, 11), None);
    assert_eq!(read_decimal("999999999".as_bytes(), 0, 9), Some(999_999_999));
    assert_eq!(read_decimal("/0:".as_bytes(), 0, 1), None);
    assert_eq!(read_decimal("/0:".as_bytes(), 1, 2), Some(0));
    assert_eq!(read_decimal("/0:".as_bytes(), 2, 3), None);
}

#[test]
fn the_chains_of_recognizers() {
    assert_eq!(
        time_recognizers(),
        [Recognizer::FractionalUtc, Recognizer::WholeUtc, Recognizer::FractionalOffset]
    );
    assert_eq!(date_recognizers(), [Recognizer::Date]);
}
