use expr_engine::functions::{compare_dates, find_text, match_key};
use expr_engine::matching::find_position;
use expr_engine::syntax::Builtin;
use expr_engine::dates::{add_months, add_years, parse_date, DateTime};
use expr_engine::numbers::group_fixed_text;
use expr_engine::text::{capitalize, first_sentence, first_word, left, mid, right, text_ends_with, text_starts_with};
use expr_engine::zones::get_utc_offset;

fn date(y: i32, mo: u32, d: u32) -> DateTime {
    DateTime { year: y, month: mo, day: d, hour: 0, minute: 0, second: 0, nano: 0 }
}

#[test]
fn slicing_counts_characters() {
    assert_eq!(left("héllo", 2), "hé");
    assert_eq!(left("hello", -3), "");
    assert_eq!(left("hello", 99), "hello");
    assert_eq!(right("héllo", 3), "llo");
    assert_eq!(right("hello", 0), "");
    assert_eq!(mid("hello", 2, 3), "ell");
    assert_eq!(mid("hello", -5, 2), "he");
    assert_eq!(mid("hello", 9, 2), "o");
    assert_eq!(mid("", 1, 2), "");
}

#[test]
fn words_and_sentences() {
    assert_eq!(first_word("Hello, world"), "Hello");
    assert_eq!(first_word("¿Qué?"), "");
    assert_eq!(first_word("single"), "single");
    assert_eq!(first_sentence("One. Two!"), "One");
    assert_eq!(first_sentence("no end"), "no end");
}

#[test]
fn affixes_ignore_case() {
    assert!(text_starts_with("Hello", "hEL"));
    assert!(!text_starts_with("He", "Hello"));
    assert!(text_ends_with("Hello", "LLO"));
    assert!(!text_ends_with("Hello", "x"));
    assert!(text_starts_with("abc", ""));
}

#[test]
fn capitalize_each_word() {
    assert_eq!(capitalize("hello big world"), "Hello Big World");
    assert_eq!(capitalize("élan vital"), "Élan Vital");
}

#[test]
fn thousands_grouping() {
    assert_eq!(group_fixed_text("1234.57"), "1,234.57");
    assert_eq!(group_fixed_text("-1234567"), "-1,234,567");
    assert_eq!(group_fixed_text("12.5"), "12.5");
    assert_eq!(group_fixed_text("inf"), "inf");
}

#[test]
fn time_zone_offsets() {
    assert_eq!(get_utc_offset("Romance Standard Time").unwrap(), 3600);
    assert_eq!(get_utc_offset("Pacific Standard Time").unwrap(), -28800);
    assert_eq!(get_utc_offset("UTC").unwrap(), 0);
    assert_eq!(get_utc_offset("Nowhere").unwrap_err(), "Unable to find a time zone named 'Nowhere'");
}

#[test]
fn month_addition() {
    let d = date(2020, 1, 15);
    assert_eq!(add_months(&d, 1).unwrap(), date(2020, 2, 15));
    assert_eq!(add_months(&d, -1).unwrap(), date(2019, 12, 15));
    assert_eq!(add_months(&d, 23).unwrap(), date(2021, 12, 15));
    assert_eq!(add_months(&d, -13).unwrap(), date(2018, 12, 15));
    assert_eq!(
        add_months(&date(2020, 1, 31), 1).unwrap_err(),
        "Couldn't set 2 as month to the date 2020-02-31 00:00:00"
    );
}

#[test]
fn year_addition() {
    assert_eq!(add_years(&date(2020, 2, 28), 1).unwrap(), date(2021, 2, 28));
    assert_eq!(
        add_years(&date(2020, 2, 29), 1).unwrap_err(),
        "Couldn't add 1 years to the date 2020-02-29 00:00:00"
    );
}

#[test]
fn dates_read_and_render() {
    let d = parse_date("2021-03-04T05:06:07.25+01:00").unwrap();
    assert_eq!(d.to_text(), "2021-03-04 04:06:07.250");
    assert!(parse_date("yesterday").is_err());
    assert_eq!(date(-5, 1, 2).to_text(), "-0005-01-02 00:00:00");
}

#[test]
fn find_position_takes_the_needle_literally() {
    assert_eq!(find_position("a.b", "axb A.B", 0).unwrap(), Some(4));
    assert_eq!(find_position("world", "Hello, World!", 0).unwrap(), Some(7));
    assert_eq!(find_position("o", "Hello, World!", 5).unwrap(), Some(8));
    assert_eq!(find_position("o", "Hello", 99).unwrap(), None);
    assert_eq!(find_position("z", "Hello", 0).unwrap(), None);
}

#[test]
fn replacement_keys() {
    assert!(match_key("Hi", "hI", false).unwrap());
    assert!(!match_key("Hi there", "hi", false).unwrap());
    assert!(!match_key("a.c", "a", false).unwrap());
    assert!(match_key("Hello", "h%O", true).unwrap());
    assert!(!match_key("abc", "a.c", false).unwrap());
}

#[test]
fn date_comparisons_with_defaults() {
    let a = DateTime { year: 2020, month: 5, day: 6, hour: 7, minute: 8, second: 9, nano: 0 };
    let b = DateTime { year: 2021, month: 5, day: 6, hour: 7, minute: 8, second: 9, nano: 0 };
    let none = vec![false; 6];
    let no_year = vec![true, false, false, false, false, false];
    assert!(compare_dates(Builtin::DateLower, &a, &b, &none));
    assert!(!compare_dates(Builtin::DateEquals, &a, &b, &none));
    assert!(compare_dates(Builtin::DateEquals, &a, &b, &no_year));
    assert!(compare_dates(Builtin::DateGreaterOrEquals, &b, &a, &none));
    assert!(!compare_dates(Builtin::DateGreater, &a, &a, &none));
    assert!(compare_dates(Builtin::DateLowerOrEquals, &a, &a, &none));
    assert!(compare_dates(Builtin::DateNotEquals, &a, &b, &none));
}

#[test]
fn find_text_positions() {
    assert_eq!(find_text("world", "Hello, World!", 1).unwrap(), 8);
    assert_eq!(find_text("xyz", "Hello, World!", 1).unwrap(), 0);
    assert_eq!(find_text("l", "Hello, World!", 5).unwrap(), 11);
    assert_eq!(find_text("l", "Hello", -4).unwrap(), 3);
    assert_eq!(find_text("", "Hello", 1).unwrap(), 1);
    assert_eq!(find_text("o", "Hello", 1000).unwrap(), 0);
}
