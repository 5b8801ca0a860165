use time_util::parse_system_time_from_str;
use time_util::print::is_printable_time;
use time_util::print_system_time_to_rfc3339;
use time_util::print_system_time_to_rfc3339_with_nanos;
use time_util::Instant;

#[test]
fn print_rfc3339() {
    let string = "2018-04-01T12:04:17.050Z";
    let time = parse_system_time_from_str(string).unwrap();
    let result = print_system_time_to_rfc3339(&time);
    assert_eq!(result, string)
}

#[test]
fn print_rfc3339_with_nanos() {
    let string = "2018-04-01T12:04:17.050937231Z";
    let time = parse_system_time_from_str(string).unwrap();
    let result = print_system_time_to_rfc3339_with_nanos(&time);
    assert_eq!(result, string)
}

#[test]
fn print_cuts_off_below_the_millisecond() {
    let time = Instant::new(1_522_584_257, 50_999_999).unwrap();
    assert_eq!(print_system_time_to_rfc3339(&time), "2018-04-01T12:04:17.050Z");
    assert_eq!(
        print_system_time_to_rfc3339_with_nanos(&time),
        "2018-04-01T12:04:17.050999999Z"
    );
}

#[test]
fn print_the_epoch_and_the_ends_of_the_calendar() {
    assert_eq!(print_system_time_to_rfc3339(&Instant::from_secs(0)), "1970-01-01T00:00:00.000Z");
    assert_eq!(
        print_system_time_to_rfc3339(&Instant::from_secs(-62_167_219_200)),
        "0000-01-01T00:00:00.000Z"
    );
    assert_eq!(
        print_system_time_to_rfc3339_with_nanos(&Instant::new(253_402_300_799, 999_999_999).unwrap()),
        "9999-12-31T23:59:59.999999999Z"
    );
    assert_eq!(
        print_system_time_to_rfc3339_with_nanos(&Instant::new(-1, 1).unwrap()),
        "1969-12-31T23:59:59.000000001Z"
    );
    assert_eq!(
        print_system_time_to_rfc3339(&Instant::from_secs(1_544_129_220)),
        "2018-12-06T20:47:00.000Z"
    );
}

#[test]
fn printable_instants_lie_in_four_digit_years() {
    assert!(is_printable_time(&Instant::from_secs(0)));
    assert!(is_printable_time(&Instant::from_secs(-62_167_219_200)));
    assert!(!is_printable_time(&Instant::from_secs(-62_167_219_201)));
    assert!(is_printable_time(&Instant::new(253_402_300_799, 999_999_999).unwrap()));
    assert!(!is_printable_time(&Instant::from_secs(253_402_300_800)));
}

#[test]
fn printing_with_nanoseconds_and_parsing_gives_the_instant_back() {
    let instants = [
        Instant::from_secs(0),
        Instant::new(0, 1).unwrap(),
        Instant::new(-1, 999_999_999).unwrap(),
        Instant::new(1_522_584_257, 50_937_231).unwrap(),
        Instant::new(951_825_599, 123_456_789).unwrap(),
        Instant::from_secs(-62_167_219_200),
        Instant::new(253_402_300_799, 999_999_999).unwrap(),
    ];
    for instant in instants.iter() {
        let text = print_system_time_to_rfc3339_with_nanos(instant);
        assert_eq!(parse_system_time_from_str(&text), Some(*instant));
    }
}

#[test]
fn printing_with_milliseconds_and_parsing_gives_the_milliseconds_back() {
    let whole = Instant::new(1_522_584_257, 50_000_000).unwrap();
    let text = print_system_time_to_rfc3339(&whole);
    assert_eq!(parse_system_time_from_str(&text), Some(whole));

    let finer = Instant::new(1_522_584_257, 50_937_231).unwrap();
    let text = print_system_time_to_rfc3339(&finer);
    assert_eq!(parse_system_time_from_str(&text), Some(whole));

    let early = Instant::new(-86_401, 999_000_000).unwrap();
    let text = print_system_time_to_rfc3339(&early);
    assert_eq!(text, "1969-12-30T23:59:59.999Z");
    assert_eq!(parse_system_time_from_str(&text), Some(early));
}
