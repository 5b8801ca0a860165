use time_util::parse::parse_system_time_from_str_impl;
use time_util::parse::Recognizer;
use time_util::parse_system_time_from_date_str;
use time_util::parse_system_time_from_str;
use time_util::Instant;

#[test]
fn parse_time() {
    let time = parse_system_time_from_str("2018-04-01T12:00:00.000Z").unwrap();
    let expected = Instant::from_secs(1_522_584_000);
    assert_eq!(time, expected)
}

#[test]
fn parse_date() {
    let time = parse_system_time_from_date_str("2019-08-01").unwrap();
    let expected = Instant::from_secs(1_564_617_600);
    assert_eq!(time, expected)
}

#[test]
fn parse_time_in_every_layout() {
    let expected = Instant::from_secs(1_522_584_000);
    assert_eq!(parse_system_time_from_str("2018-04-01T12:00:00Z"), Some(expected));
    assert_eq!(parse_system_time_from_str("2018-04-01T12:00:00.000Z"), Some(expected));
    assert_eq!(parse_system_time_from_str("2018-04-01T08:00:00.000-04:00"), Some(expected));
    assert_eq!(parse_system_time_from_str("2018-04-01T14:30:00.0+02:30"), Some(expected));
}

#[test]
fn parse_time_with_a_fraction() {
    assert_eq!(
        parse_system_time_from_str("2018-04-01T12:04:17.050Z"),
        Instant::new(1_522_584_257, 50_000_000)
    );
    assert_eq!(
        parse_system_time_from_str("2018-04-01T12:04:17.050937231Z"),
        Instant::new(1_522_584_257, 50_937_231)
    );
    assert_eq!(
        parse_system_time_from_str("2018-04-01T12:04:17.5Z"),
        Instant::new(1_522_584_257, 500_000_000)
    );
    assert_eq!(
        parse_system_time_from_str("1969-12-31T23:59:59.25Z"),
        Instant::new(-1, 250_000_000)
    );
}

#[test]
fn parse_time_at_the_ends_of_the_calendar() {
    assert_eq!(
        parse_system_time_from_str("0000-01-01T00:00:00Z"),
        Some(Instant::from_secs(-62_167_219_200))
    );
    assert_eq!(
        parse_system_time_from_str("9999-12-31T23:59:59Z"),
        Some(Instant::from_secs(253_402_300_799))
    );
    assert_eq!(
        parse_system_time_from_str("1970-01-01T00:00:00Z"),
        Some(Instant::from_secs(0))
    );
    assert_eq!(
        parse_system_time_from_str("2020-02-29T00:00:00Z"),
        Some(Instant::from_secs(1_582_934_400))
    );
}

#[test]
fn parse_rejects_what_is_no_time_stamp() {
    assert_eq!(parse_system_time_from_str("not-a-date"), None);
    assert_eq!(parse_system_time_from_str(""), None);
    assert_eq!(parse_system_time_from_str("2019-08-01"), None);
    assert_eq!(parse_system_time_from_str("2018-04-01T12:00:00"), None);
    assert_eq!(parse_system_time_from_str("2018-04-01T12:00:00.Z"), None);
    assert_eq!(parse_system_time_from_str("2018-04-01T12:00:00.0000000000Z"), None);
    assert_eq!(parse_system_time_from_str("2018-04-01T12:00:00-04:00"), None);
    assert_eq!(parse_system_time_from_str("2018-04-01 12:00:00Z"), None);
    assert_eq!(parse_system_time_from_str("2018-04-01T12:00:00z"), None);
    assert_eq!(parse_system_time_from_str("2018-13-01T12:00:00Z"), None);
    assert_eq!(parse_system_time_from_str("2018-00-01T12:00:00Z"), None);
    assert_eq!(parse_system_time_from_str("2018-04-31T12:00:00Z"), None);
    assert_eq!(parse_system_time_from_str("2018-04-00T12:00:00Z"), None);
    assert_eq!(parse_system_time_from_str("2019-02-29T12:00:00Z"), None);
    assert_eq!(parse_system_time_from_str("1900-02-29T12:00:00Z"), None);
    assert_eq!(parse_system_time_from_str("2018-04-01T24:00:00Z"), None);
    assert_eq!(parse_system_time_from_str("2018-04-01T12:60:00Z"), None);
    assert_eq!(parse_system_time_from_str("2018-04-01T12:00:60Z"), None);
    assert_eq!(parse_system_time_from_str("2018-04-01T12:00:00.000+24:00"), None);
    assert_eq!(parse_system_time_from_str("2018-04-01T12:00:00.000+02:60"), None);
    assert_eq!(parse_system_time_from_str("2018-04-01T12:00:00.000 02:00"), None);
    assert_eq!(parse_system_time_from_str("2018-04-01T12:00:0\u{e9}Z"), None);
    assert_eq!(parse_system_time_from_str("\u{ff12}018-04-01T12:00:00Z"), None);
}

#[test]
fn parse_rejects_what_is_no_date() {
    assert_eq!(parse_system_time_from_date_str("not-a-date"), None);
    assert_eq!(parse_system_time_from_date_str("2019-08-01T00:00:00Z"), None);
    assert_eq!(parse_system_time_from_date_str("2019-8-1"), None);
    assert_eq!(parse_system_time_from_date_str("2019/08/01"), None);
    assert_eq!(parse_system_time_from_date_str("2019-02-30"), None);
}

#[test]
fn parse_leap_day_dates() {
    assert_eq!(
        parse_system_time_from_date_str("2000-02-29"),
        Some(Instant::from_secs(951_782_400))
    );
    assert_eq!(
        parse_system_time_from_date_str("1970-01-01"),
        Some(Instant::from_secs(0))
    );
}

#[test]
fn the_first_recognizer_that_matches_decides() {
    let text = "2018-04-01T12:00:00Z";
    assert_eq!(parse_system_time_from_str_impl(text, &[]), None);
    assert_eq!(parse_system_time_from_str_impl(text, &[Recognizer::Date]), None);
    assert_eq!(
        parse_system_time_from_str_impl(text, &[Recognizer::Date, Recognizer::WholeUtc]),
        Some(Instant::from_secs(1_522_584_000))
    );
    assert_eq!(
        parse_system_time_from_str_impl(
            "2019-08-01",
            &[Recognizer::FractionalUtc, Recognizer::Date, Recognizer::WholeUtc]
        ),
        Some(Instant::from_secs(1_564_617_600))
    );
}

#[test]
fn each_recognizer_knows_its_own_layout_only() {
    let expected = Some(Instant::from_secs(1_522_584_000));
    assert_eq!(Recognizer::FractionalUtc.recognize("2018-04-01T12:00:00.000Z"), expected);
    assert_eq!(Recognizer::FractionalUtc.recognize("2018-04-01T12:00:00Z"), None);
    assert_eq!(Recognizer::WholeUtc.recognize("2018-04-01T12:00:00Z"), expected);
    assert_eq!(Recognizer::WholeUtc.recognize("2018-04-01T12:00:00.000Z"), None);
    assert_eq!(Recognizer::FractionalOffset.recognize("2018-04-01T12:00:00.000+00:00"), expected);
    assert_eq!(Recognizer::FractionalOffset.recognize("2018-04-01T12:00:00.000Z"), None);
    assert_eq!(Recognizer::Date.recognize("2018-04-01"), Some(Instant::from_secs(1_522_540_800)));
    assert_eq!(Recognizer::Date.recognize("2018-04-01T12:00:00Z"), None);
}
