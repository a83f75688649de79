use friends::controllers::calendar_controller::{parse_date_range, parse_one_date};
use friends::controllers::dates::parse_date;
use friends::pattern::like_prefix;
use friends::refusal::Refusal;
use friends::text::{has_part, is_blank, is_text_before};
use friends::time::{Date, Timestamp};

fn day(year: i32, month: u32, day: u32) -> Date {
    Date::new(year, month, day).unwrap()
}

fn numbers(date: &Date) -> (i32, u32, u32) {
    (date.year(), date.month(), date.day())
}

#[test]
fn dates_print_as_year_month_and_day() {
    assert_eq!(day(2026, 3, 3).to_string(), "2026-03-03");
    assert_eq!(day(0, 1, 1).to_string(), "0000-01-01");
    assert_eq!(day(999, 12, 31).to_string(), "0999-12-31");
    assert_eq!(day(9999, 12, 31).to_string(), "9999-12-31");
}

#[test]
fn years_without_four_digits_have_a_sign() {
    assert_eq!(day(10000, 1, 2).to_string(), "+10000-01-02");
    assert_eq!(day(-1, 1, 2).to_string(), "-0001-01-02");
    assert_eq!(day(-262143, 1, 1).to_string(), "-262143-01-01");
    assert_eq!(day(262142, 12, 31).to_string(), "+262142-12-31");
}

#[test]
fn only_days_of_the_calendar_are_dates() {
    assert!(Date::new(2024, 2, 29).is_some());
    assert!(Date::new(2000, 2, 29).is_some());
    assert!(Date::new(2023, 2, 29).is_none());
    assert!(Date::new(1900, 2, 29).is_none());
    assert!(Date::new(2024, 4, 31).is_none());
    assert!(Date::new(2024, 13, 1).is_none());
    assert!(Date::new(2024, 0, 1).is_none());
    assert!(Date::new(2024, 1, 0).is_none());
    assert!(Date::new(262143, 1, 1).is_none());
    assert!(Date::new(-262144, 1, 1).is_none());
    assert!(Date::new(-4, 2, 29).is_some());
    assert!(Date::new(-1, 2, 29).is_none());
}

#[test]
fn a_printed_date_is_read_back() {
    for date in [day(2026, 3, 3), day(0, 2, 29), day(-1, 1, 2), day(10000, 1, 2), day(-262143, 1, 1), day(262142, 12, 31)] {
        let read = parse_date(date.to_string().as_str()).unwrap();
        assert_eq!(numbers(&read), numbers(&date));
        let read = parse_one_date(date.to_string().as_str()).unwrap();
        assert_eq!(numbers(&read), numbers(&date));
    }
}

#[test]
fn texts_that_are_no_dates_are_refused() {
    for text in ["", "2026", "2026-02-30", "2026-13-01", "03.03.2026", "2026-03-03T10:00", "tomorrow"] {
        assert_eq!(parse_date(text).unwrap_err(), Refusal::InvalidDate);
        assert_eq!(parse_one_date(text).unwrap_err(), Refusal::InvalidDate);
    }
}

#[test]
fn a_text_names_a_year_a_month_and_a_day() {
    assert_eq!(numbers(&Date::parse("2026-04-03").unwrap()), (2026, 4, 3));
    assert!(Date::parse("03.04.2026").is_none());
    assert!(Date::parse("-2147483648-1-1").is_none());
    assert!(Date::parse("2147483647-12-31").is_none());
    assert!(Date::parse("99999999999999999999-1-1").is_none());
}

#[test]
fn days_are_compared_by_year_month_and_day() {
    assert!(day(2025, 12, 31).is_before(&day(2026, 1, 1)));
    assert!(day(2026, 1, 31).is_before(&day(2026, 2, 1)));
    assert!(day(2026, 2, 1).is_before(&day(2026, 2, 2)));
    assert!(!day(2026, 2, 2).is_before(&day(2026, 2, 2)));
    assert!(!day(2026, 2, 2).is_before(&day(2026, 2, 1)));
    assert!(!day(2026, 2, 2).is_before(&day(2025, 12, 31)));
}

#[test]
fn today_is_a_day_of_this_era() {
    let today = Date::today();
    assert!(day(2024, 1, 1).is_before(&today));
    assert!(Date::new(today.year(), today.month(), today.day()).is_some());
}

#[test]
fn a_range_of_days_begins_before_it_ends() {
    let (from, to) = parse_date_range("2026-03-01", "2026-03-31").unwrap();
    assert_eq!(numbers(&from), (2026, 3, 1));
    assert_eq!(numbers(&to), (2026, 3, 31));
    assert!(parse_date_range("2026-03-01", "2026-03-01").is_ok());
    assert_eq!(parse_date_range("2026-03-02", "2026-03-01").unwrap_err(), Refusal::StartAfterEnd);
    assert_eq!(parse_date_range("x", "2026-03-01").unwrap_err(), Refusal::InvalidDate);
    assert_eq!(parse_date_range("2026-03-02", "x").unwrap_err(), Refusal::InvalidDate);
}

#[test]
fn four_digit_years_print_in_the_order_of_the_days() {
    let days = [day(0, 1, 1), day(99, 12, 31), day(100, 1, 1), day(2026, 3, 9), day(2026, 3, 10), day(2026, 11, 1), day(9999, 12, 31)];
    for pair in days.windows(2) {
        let (a, b) = (pair[0].to_string(), pair[1].to_string());
        assert!(is_text_before(a.as_str(), b.as_str()));
        assert!(!is_text_before(b.as_str(), a.as_str()));
        assert!(!is_text_before(a.as_str(), a.as_str()));
    }
    assert!(is_text_before(day(10000, 1, 1).to_string().as_str(), day(9999, 1, 1).to_string().as_str()));
}

#[test]
fn a_prefix_comes_before_a_longer_text() {
    assert!(is_text_before("", "a"));
    assert!(is_text_before("ab", "abc"));
    assert!(!is_text_before("abc", "ab"));
    assert!(is_text_before("Z", "a"));
    assert!(is_text_before("z", "\u{e9}"));
}

#[test]
fn time_stamps_print_as_rfc_3339() {
    let stamp = Timestamp::new(1_772_532_000, 0, 0).unwrap();
    assert_eq!(stamp.to_rfc3339(), "2026-03-03T10:00:00+00:00");
    let stamp = Timestamp::new(1_772_532_000, 120_000_000, 10_800).unwrap();
    assert_eq!(stamp.to_rfc3339(), "2026-03-03T13:00:00.120+03:00");
    let stamp = Timestamp::new(-1, 5, -3_600).unwrap();
    assert_eq!(stamp.to_rfc3339(), "1969-12-31T22:59:59.000000005-01:00");
    let leap = Timestamp::new(1_483_228_799, 1_000_000_000, 0).unwrap();
    assert_eq!(leap.to_rfc3339(), "2016-12-31T23:59:60+00:00");
}

#[test]
fn time_stamps_have_bounds() {
    assert!(Timestamp::new(-8_334_601_228_800, 0, 86_399).is_some());
    assert!(Timestamp::new(8_210_266_876_799, 1_999_999_999, -86_399).is_some());
    assert!(Timestamp::new(-8_334_601_228_801, 0, 0).is_none());
    assert!(Timestamp::new(8_210_266_876_800, 0, 0).is_none());
    assert!(Timestamp::new(0, 0, 86_400).is_none());
    assert!(Timestamp::new(0, 0, -86_400).is_none());
    assert!(Timestamp::new(0, 2_000_000_000, 0).is_none());
    assert!(Timestamp::new(0, 1_000_000_000, 0).is_none());
    assert!(Timestamp::new(-1, 1_000_000_000, 0).is_some());
    let first = Timestamp::new(-8_334_601_228_800, 0, -86_399).unwrap();
    assert!(!first.to_rfc3339().is_empty());
    let last = Timestamp::new(8_210_266_876_799, 1_999_999_999, 86_399).unwrap();
    assert!(!last.to_rfc3339().is_empty());
}

#[test]
fn blank_texts_hold_only_white_space() {
    assert!(is_blank(""));
    assert!(is_blank(" \t\r\n"));
    assert!(is_blank("\u{85}\u{a0}\u{1680}\u{2003}\u{2028}\u{2029}\u{202f}\u{205f}\u{3000}"));
    assert!(!is_blank("  a "));
    assert!(!is_blank("\u{200b}"));
    assert!(!is_blank("\u{180e}"));
}

#[test]
fn a_part_stands_in_one_piece() {
    assert!(has_part("violates unique constraint", "unique"));
    assert!(has_part("duplicate key value", "duplicate key"));
    assert!(has_part("anything", ""));
    assert!(!has_part("duplicate  key", "duplicate key"));
    assert!(!has_part("uni", "unique"));
}

#[test]
fn a_beginning_is_matched_letter_for_letter() {
    assert_eq!(like_prefix("ann"), "ann%");
    assert_eq!(like_prefix(""), "%");
    assert_eq!(like_prefix("50%"), "50\\%%");
    assert_eq!(like_prefix("a_b"), "a\\_b%");
    assert_eq!(like_prefix("\\"), "\\\\%");
}
