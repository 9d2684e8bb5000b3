//! The decimal text forms: exact offsets, tempos, years and dates.

use mixxx_library_converter::text::Seconds;
use mixxx_library_converter::text::Timestamp;
use mixxx_library_converter::text::format_date;
use mixxx_library_converter::text::format_milli;
use mixxx_library_converter::text::format_milli_2;
use mixxx_library_converter::text::format_seconds;
use mixxx_library_converter::text::parse_u16;
use mixxx_library_converter::text::str_eq;
use mixxx_library_converter::text::u64_to_dec;
use mixxx_library_converter::text::usize_to_dec;

#[test]
fn decimal_rendering() {
    assert_eq!(u64_to_dec(0), "0");
    assert_eq!(u64_to_dec(7), "7");
    assert_eq!(u64_to_dec(176400), "176400");
    assert_eq!(usize_to_dec(12), "12");
}

#[test]
fn seconds_whole_values() {
    assert_eq!(format_seconds(&Seconds { num: 176400, den: 88200 }), "2.0");
    assert_eq!(format_seconds(&Seconds { num: 0, den: 1 }), "0.0");
    assert_eq!(format_seconds(&Seconds { num: 5, den: 4 }), "1.25");
}

#[test]
fn seconds_negative_and_cut() {
    assert_eq!(format_seconds(&Seconds { num: -1, den: 2 }), "-0.5");
    // A non-terminating fraction is cut after six digits.
    assert_eq!(format_seconds(&Seconds { num: 1, den: 3 }), "0.333333");
}

#[test]
fn milli_trims_trailing_zeros() {
    assert_eq!(format_milli(128000), "128");
    assert_eq!(format_milli(128500), "128.5");
    assert_eq!(format_milli(128050), "128.05");
    assert_eq!(format_milli(123456), "123.456");
    assert_eq!(format_milli(0), "0");
}

#[test]
fn milli_two_decimals() {
    assert_eq!(format_milli_2(128000), "128.00");
    assert_eq!(format_milli_2(128505), "128.51");
    assert_eq!(format_milli_2(99), "0.10");
    assert_eq!(format_milli_2(0), "0.00");
}

#[test]
fn year_parsing() {
    assert_eq!(parse_u16("2021"), Some(2021));
    assert_eq!(parse_u16("+42"), Some(42));
    assert_eq!(parse_u16("0042"), Some(42));
    assert_eq!(parse_u16("65535"), Some(65535));
    assert_eq!(parse_u16("65536"), None);
    assert_eq!(parse_u16(""), None);
    assert_eq!(parse_u16("+"), None);
    assert_eq!(parse_u16("12a"), None);
    assert_eq!(parse_u16("-1"), None);
}

#[test]
fn date_rendering_pads() {
    let ts = Timestamp { year: 2021, month: 5, day: 1, hour: 12, minute: 30, second: 0 };
    assert_eq!(format_date(&ts), "2021-05-01");
    let early = Timestamp { year: 45, month: 12, day: 31, hour: 0, minute: 0, second: 0 };
    assert_eq!(format_date(&early), "0045-12-31");
}

#[test]
fn string_comparison() {
    assert!(str_eq("all", "all"));
    assert!(!str_eq("all", "alle"));
    assert!(!str_eq("all", "alt"));
    assert!(str_eq("", ""));
}
