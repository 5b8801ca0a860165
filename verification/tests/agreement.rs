use chrono::DateTime;
use chrono::Datelike;
use chrono::NaiveDate;
use chrono::NaiveDateTime;
use chrono::SecondsFormat;
use chrono::Utc;

use time_util::calendar::civil_from_days;
use time_util::calendar::days_from_civil;
use time_util::parse_system_time_from_date_str;
use time_util::parse_system_time_from_str;
use time_util::print_system_time_to_rfc3339;
use time_util::print_system_time_to_rfc3339_with_nanos;
use time_util::Instant;

/// What `chrono` makes of a time stamp in the three layouts.
fn chrono_time(time: &str) -> Option<Instant> {
    let parsed = NaiveDateTime::parse_from_str(time, "%Y-%m-%dT%H:%M:%S%.fZ")
        .map(|naive| naive.and_utc())
        .or_else(|_| {
            NaiveDateTime::parse_from_str(time, "%Y-%m-%dT%H:%M:%SZ").map(|naive| naive.and_utc())
        })
        .or_else(|_| {
            DateTime::parse_from_str(time, "%Y-%m-%dT%H:%M:%S%.f%z")
                .map(|zoned| zoned.with_timezone(&Utc))
        })
        .ok()?;
    Instant::new(parsed.timestamp(), parsed.timestamp_subsec_nanos())
}

/// What `chrono` makes of a date.
fn chrono_date(date: &str) -> Option<Instant> {
    let parsed = NaiveDate::parse_from_str(date, "%Y-%m-%d").ok()?;
    Some(Instant::from_secs(parsed.and_hms_opt(0, 0, 0)?.and_utc().timestamp()))
}

/// A fixed run of numbers that look random.
fn scattered(count: usize) -> Vec<u64> {
    let mut state: u64 = 0x2545_f491_4f6c_dd1d;
    let mut numbers = Vec::new();
    for _ in 0..count {
        state ^= state << 13;
        state ^= state >> 7;
        state ^= state << 17;
        numbers.push(state);
    }
    numbers
}

/// Instants spread over the years 0000 to 9999.
fn scattered_instants(count: usize) -> Vec<Instant> {
    let span: u64 = 253_402_300_800 + 62_167_219_200;
    scattered(2 * count)
        .chunks(2)
        .map(|pair| {
            let secs = (pair[0] % span) as i64 - 62_167_219_200;
            Instant::new(secs, (pair[1] % 1_000_000_000) as u32).unwrap()
        })
        .collect()
}

#[test]
fn dates_agree_with_chrono() {
    let mut days: i64 = -719_528;
    while days <= 2_932_896 {
        let date = NaiveDate::from_num_days_from_ce_opt((days + 719_163) as i32).unwrap();
        let expected = (date.year() as u32, date.month(), date.day());
        assert_eq!(civil_from_days(days), expected);
        assert_eq!(days_from_civil(expected.0, expected.1, expected.2), days);
        days += if (-140_000..160_000).contains(&days) { 1 } else { 11 };
    }
}

#[test]
fn printing_agrees_with_chrono() {
    for instant in scattered_instants(20_000) {
        let time = DateTime::from_timestamp(instant.secs(), instant.subsec_nanos()).unwrap();
        assert_eq!(
            print_system_time_to_rfc3339(&instant),
            time.to_rfc3339_opts(SecondsFormat::Millis, true)
        );
        assert_eq!(
            print_system_time_to_rfc3339_with_nanos(&instant),
            time.to_rfc3339_opts(SecondsFormat::Nanos, true)
        );
    }
}

#[test]
fn parsing_agrees_with_chrono() {
    for instant in scattered_instants(20_000) {
        let time = DateTime::from_timestamp(instant.secs(), instant.subsec_nanos()).unwrap();
        let texts = [
            time.to_rfc3339_opts(SecondsFormat::Secs, true),
            time.to_rfc3339_opts(SecondsFormat::Millis, true),
            time.to_rfc3339_opts(SecondsFormat::Micros, true),
            time.to_rfc3339_opts(SecondsFormat::Nanos, true),
            time.format("%Y-%m-%dT%H:%M:%S%.3f+05:30").to_string(),
            time.format("%Y-%m-%dT%H:%M:%S%.9f-11:45").to_string(),
            time.format("%Y-%m-%d").to_string(),
        ];
        for text in texts.iter() {
            let parsed = parse_system_time_from_str(text);
            assert_eq!(parsed, chrono_time(text));
            assert_eq!(parse_system_time_from_date_str(text), chrono_date(text));
        }
    }
}

#[test]
fn rejected_texts_agree_with_chrono() {
    let texts = [
        "not-a-date",
        "",
        "2019-08-01",
        "2018-04-01T12:00:00",
        "2018-04-01 12:00:00Z",
        "2018-13-01T12:00:00Z",
        "2018-04-31T12:00:00Z",
        "2019-02-29T12:00:00Z",
        "1900-02-29T12:00:00Z",
        "2018-04-01T24:00:00Z",
        "2018-04-01T12:60:00Z",
        "2018-04-01T12:00:00.000+24:00",
        "2018-04-01T12:00:00.000+02:60",
        "2019/08/01",
        "2019-02-30",
    ];
    for text in texts.iter() {
        assert_eq!(parse_system_time_from_str(text), chrono_time(text));
        assert_eq!(parse_system_time_from_date_str(text), chrono_date(text));
    }
}
