use mov_cli_rs::numbers::{decimal_of, parse_i32};
use mov_cli_rs::text::{chars_of, ends_with, replace_all, same_text, string_of, year_of};

#[test]
fn chars_and_strings_round_trip() {
    let v = chars_of("héllo");
    assert_eq!(v, vec!['h', 'é', 'l', 'l', 'o']);
    assert_eq!(string_of(&v), "héllo");
    assert_eq!(string_of(&Vec::new()), "");
}

#[test]
fn compare() {
    assert!(same_text("quit", "quit"));
    assert!(!same_text("quit", "quits"));
    assert!(!same_text("back", "bacK"));
    assert!(same_text("", ""));
}

#[test]
fn suffixes() {
    assert!(ends_with("https://x/y.m3u8", ".m3u8"));
    assert!(!ends_with("https://x/y.mp4", ".m3u8"));
    assert!(!ends_with("m3u8", ".m3u8"));
    assert!(ends_with("anything", ""));
    assert!(ends_with(".m3u8", ".m3u8"));
}

#[test]
fn replacing_scans_from_the_left() {
    assert_eq!(replace_all("1080p", "p", ""), "1080");
    assert_eq!(replace_all("auto", "auto", "0"), "0");
    assert_eq!(replace_all("aaa", "aa", "b"), "ba");
    assert_eq!(replace_all("pepper", "p", ""), "eer");
    assert_eq!(replace_all("", "p", "x"), "");
    for (s, p, t) in [("xautoyautoz", "auto", "0"), ("ppp", "p", "pp"), ("720p", "p", "")] {
        assert_eq!(replace_all(s, p, t), s.replace(p, t));
    }
}

#[test]
fn year_is_first_four_bytes() {
    assert_eq!(year_of("2019-05-01"), "2019");
    assert_eq!(year_of("1999"), "1999");
    assert_eq!(year_of("é99-01"), "é99");
}

#[test]
fn decimal_rendering() {
    assert_eq!(decimal_of(0), "0");
    assert_eq!(decimal_of(7), "7");
    assert_eq!(decimal_of(-12), "-12");
    assert_eq!(decimal_of(i32::MAX), "2147483647");
    assert_eq!(decimal_of(i32::MIN), "-2147483648");
    for n in [1, 9, 10, 99, 100, 1000, -1, -10, 123456789] {
        assert_eq!(decimal_of(n), n.to_string());
    }
}

#[test]
fn parsing_integers() {
    assert_eq!(parse_i32("42"), Some(42));
    assert_eq!(parse_i32("+5"), Some(5));
    assert_eq!(parse_i32("-0"), Some(0));
    assert_eq!(parse_i32("007"), Some(7));
    assert_eq!(parse_i32("-2147483648"), Some(i32::MIN));
    assert_eq!(parse_i32("2147483647"), Some(i32::MAX));
    assert_eq!(parse_i32("2147483648"), None);
    assert_eq!(parse_i32("-2147483649"), None);
    assert_eq!(parse_i32("99999999999999999999"), None);
    assert_eq!(parse_i32(""), None);
    assert_eq!(parse_i32("-"), None);
    assert_eq!(parse_i32("+"), None);
    assert_eq!(parse_i32("12a"), None);
    assert_eq!(parse_i32(" 1"), None);
    assert_eq!(parse_i32("١"), None);
    for s in ["", "0", "+0", "-5", "17", "x", "--1", "+-1", "2147483647", "4294967296"] {
        assert_eq!(parse_i32(s), s.parse::<i32>().ok());
    }
}

#[test]
fn decimal_reads_back() {
    for n in [0, 1, -1, 42, -42, i32::MAX, i32::MIN, 1000000] {
        assert_eq!(parse_i32(&decimal_of(n)), Some(n));
    }
}
