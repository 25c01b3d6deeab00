use website::date::Date;

#[test]
fn date_new_takes_the_days_of_the_calendar() {
    let date = Date::new(2024, 6, 1).unwrap();
    assert_eq!((date.year(), date.month(), date.day()), (2024, 6, 1));
    assert!(Date::new(2024, 1, 31).is_some());
    assert!(Date::new(2024, 4, 30).is_some());
    assert!(Date::new(2024, 12, 31).is_some());
    assert!(Date::new(-44, 3, 15).is_some());
}

#[test]
fn date_new_refuses_what_the_calendar_lacks() {
    assert_eq!(Date::new(2024, 0, 1), None);
    assert_eq!(Date::new(2024, 13, 1), None);
    assert_eq!(Date::new(2024, 1, 0), None);
    assert_eq!(Date::new(2024, 1, 32), None);
    assert_eq!(Date::new(2024, 4, 31), None);
    assert_eq!(Date::new(2024, 6, 31), None);
    assert_eq!(Date::new(2024, 9, 31), None);
    assert_eq!(Date::new(2024, 11, 31), None);
}

#[test]
fn date_new_knows_the_leap_years() {
    assert!(Date::new(2024, 2, 29).is_some());
    assert!(Date::new(2000, 2, 29).is_some());
    assert!(Date::new(0, 2, 29).is_some());
    assert_eq!(Date::new(2023, 2, 29), None);
    assert_eq!(Date::new(1900, 2, 29), None);
    assert_eq!(Date::new(2100, 2, 29), None);
    assert_eq!(Date::new(2024, 2, 30), None);
    assert!(Date::new(-4, 2, 29).is_some());
    assert_eq!(Date::new(-1, 2, 29), None);
}

#[test]
fn date_parse_reads_year_month_and_day() {
    assert_eq!(Date::parse("2024-06-01"), Date::new(2024, 6, 1));
    assert_eq!(Date::parse("2015-09-05"), Date::new(2015, 9, 5));
    assert_eq!(Date::parse("1999-12-31"), Date::new(1999, 12, 31));
}

#[test]
fn date_parse_agrees_with_chrono_on_what_is_written_as_a_date() {
    for text in ["2024-06-01", "0001-01-01", "9999-12-31", "2024-02-29", "2023-02-29", "2024-00-10", "2024-04-31", "0000-01-01"] {
        let ours = Date::parse(text).map(|d| (d.year(), d.month(), d.day()));
        let theirs = chrono::NaiveDate::parse_from_str(text, "%Y-%m-%d")
            .ok()
            .map(|d| (chrono::Datelike::year(&d), chrono::Datelike::month(&d), chrono::Datelike::day(&d)));
        assert_eq!(ours, theirs);
    }
    assert_eq!(Date::parse("0000-01-01"), Date::new(0, 1, 1));
    assert_eq!(Date::parse("9999-12-31"), Date::new(9999, 12, 31));
}

#[test]
fn date_parse_refuses_what_is_no_date() {
    assert_eq!(Date::parse(""), None);
    assert_eq!(Date::parse("yesterday"), None);
    assert_eq!(Date::parse("2024-13-01"), None);
    assert_eq!(Date::parse("2024-00-01"), None);
    assert_eq!(Date::parse("2024-01-00"), None);
    assert_eq!(Date::parse("2023-02-29"), None);
    assert_eq!(Date::parse("2024/06/01"), None);
    assert_eq!(Date::parse("2024-06"), None);
}

#[test]
fn date_parse_wants_four_two_and_two_digits() {
    assert_eq!(Date::parse("2024-6-1"), None);
    assert_eq!(Date::parse("2024-06-1"), None);
    assert_eq!(Date::parse("24-06-01"), None);
    assert_eq!(Date::parse("02024-06-01"), None);
    assert_eq!(Date::parse("+2024-06-01"), None);
    assert_eq!(Date::parse("-0044-03-15"), None);
    assert_eq!(Date::parse(" 2024-06-01"), None);
    assert_eq!(Date::parse("2024-06-01 "), None);
    assert_eq!(Date::parse("2024-06-01T10:00"), None);
    assert_eq!(Date::parse("2024_06_01"), None);
    assert_eq!(Date::parse("20240601"), None);
    assert_eq!(Date::parse("２０２４-06-01"), None);
    assert_eq!(Date::parse("2024-06-0١"), None);
    assert_eq!(Date::parse("2024-0a-01"), None);
}

#[test]
fn date_is_before_goes_by_year_then_month_then_day() {
    let day = |y, m, d| Date::new(y, m, d).unwrap();
    assert!(day(2023, 12, 31).is_before(&day(2024, 1, 1)));
    assert!(!day(2024, 1, 1).is_before(&day(2023, 12, 31)));
    assert!(day(2024, 1, 31).is_before(&day(2024, 2, 1)));
    assert!(!day(2024, 2, 1).is_before(&day(2024, 1, 31)));
    assert!(day(2024, 2, 1).is_before(&day(2024, 2, 2)));
    assert!(!day(2024, 2, 2).is_before(&day(2024, 2, 1)));
    assert!(!day(2024, 2, 2).is_before(&day(2024, 2, 2)));
    assert!(day(-1, 5, 5).is_before(&day(1, 1, 1)));
}
