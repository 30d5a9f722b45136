use puzzles::{is_leap_year, parse_id, ParseError, PuzzleDate, PuzzleId, SourceId};

fn id(year: u16, month: u8, day: u8) -> PuzzleId {
    PuzzleId { source_id: SourceId::LaTimes, date: PuzzleDate { year, month, day } }
}

fn message(s: &str) -> String {
    parse_id(String::from(s)).unwrap_err().to_message()
}

#[test]
fn correctly_determines_leap_year() {
    assert_eq!(is_leap_year(2012), true);
    assert_eq!(is_leap_year(1804), true);
    assert_eq!(is_leap_year(2000), true);

    assert_eq!(is_leap_year(2011), false);
    assert_eq!(is_leap_year(1806), false);
    assert_eq!(is_leap_year(1900), false);
}

#[test]
fn parses_id() {
    assert_eq!(parse_id(String::from("lat-2019-1-2")).unwrap(), id(2019, 1, 2));
}

#[test]
fn invalid_id_length_fails() {
    assert_eq!(message("lat-2019-1-1-1"), "invalid ID length");
}

#[test]
fn invalid_source_id_fails() {
    assert_eq!(message("foo-2019-1-1"), "invalid source ID");
}

#[test]
fn invalid_year_value_fails() {
    assert_eq!(message("lat-a-b-c"), "invalid year value");
}

#[test]
fn invalid_month_value_fails() {
    assert_eq!(message("lat-1-b-c"), "invalid month value");
    assert_eq!(message("lat-1-0-1"), "month value out of range");
    assert_eq!(message("lat-1-13-1"), "month value out of range");
}

#[test]
fn invalid_day_value_fails() {
    assert_eq!(message("lat-1-2-c"), "invalid day value");
    assert_eq!(message("lat-1-1-0"), "0 is not a valid day value");
    assert_eq!(message("lat-1-1-32"), "day must be less than or equal to 31");
    assert_eq!(message("lat-1-4-31"), "day must be less than or equal to 30");
    assert_eq!(message("lat-2012-2-30"), "day must be less than or equal to 29");
    assert_eq!(message("lat-2011-2-29"), "day must be less than or equal to 28");
}

#[test]
fn error_kinds_for_each_field() {
    let err = |s: &str| parse_id(String::from(s)).unwrap_err();
    assert_eq!(err("lat-2019-1-1-1"), ParseError::InvalidLength);
    assert_eq!(err("lat-2019-1"), ParseError::InvalidLength);
    assert_eq!(err(""), ParseError::InvalidLength);
    assert_eq!(err("foo-2019-1-1"), ParseError::InvalidSource);
    assert_eq!(err("LAT-2019-1-1"), ParseError::InvalidSource);
    assert_eq!(err("lat-65536-1-1"), ParseError::InvalidYear);
    assert_eq!(err("lat--1-1"), ParseError::InvalidYear);
    assert_eq!(err("lat-2019-256-1"), ParseError::InvalidMonthFormat);
    assert_eq!(err("lat-2019-13-1"), ParseError::InvalidMonthRange);
    assert_eq!(err("lat-2019-0-1"), ParseError::InvalidMonthRange);
    assert_eq!(err("lat-2019-1-x"), ParseError::InvalidDayFormat);
    assert_eq!(err("lat-2019-1-0"), ParseError::InvalidDayIsZero);
    assert_eq!(err("lat-2019-2-30"), ParseError::InvalidDayRange { max: 28 });
    assert_eq!(err("lat-1900-2-29"), ParseError::InvalidDayRange { max: 28 });
}

#[test]
fn first_failing_field_decides() {
    assert_eq!(parse_id(String::from("foo-x-y-z")).unwrap_err(), ParseError::InvalidSource);
    assert_eq!(parse_id(String::from("lat-x-13-0")).unwrap_err(), ParseError::InvalidYear);
    assert_eq!(parse_id(String::from("lat-1-13-x")).unwrap_err(), ParseError::InvalidMonthRange);
}

#[test]
fn leap_days_follow_gregorian_rule() {
    assert_eq!(parse_id(String::from("lat-2016-2-29")).unwrap(), id(2016, 2, 29));
    assert_eq!(parse_id(String::from("lat-2000-2-29")).unwrap(), id(2000, 2, 29));
    assert!(parse_id(String::from("lat-2019-2-28")).is_ok());
}

#[test]
fn numbers_read_as_unsigned_integers() {
    assert_eq!(parse_id(String::from("lat-65535-12-31")).unwrap(), id(65535, 12, 31));
    assert_eq!(parse_id(String::from("lat-+2019-01-002")).unwrap(), id(2019, 1, 2));
    assert_eq!(parse_id(String::from("lat-0-1-1")).unwrap(), id(0, 1, 1));
    assert_eq!(parse_id(String::from("lat-+-1-1")).unwrap_err(), ParseError::InvalidYear);
}

#[test]
fn text_form_parses_back() {
    for (y, m, d) in [(2019u16, 1u8, 2u8), (0, 12, 31), (65535, 2, 28), (2000, 2, 29)] {
        let p = id(y, m, d);
        let text = p.to_text();
        assert_eq!(text, format!("lat-{}-{}-{}", y, m, d));
        assert_eq!(parse_id(text).unwrap(), p);
    }
}

#[test]
fn day_range_message_holds_the_maximum() {
    assert_eq!(ParseError::InvalidDayRange { max: 7 }.to_message(), "day must be less than or equal to 7");
    assert_eq!(ParseError::InvalidDayRange { max: 255 }.to_message(), "day must be less than or equal to 255");
}
