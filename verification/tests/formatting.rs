use weavr::format::{decimal_string, fmt_num};
use weavr::style::{ansi_for, bold, cyan, dim, green, is_self_contained, plural_suffix};
use weavr::text::{str_contains, str_equals, str_less, str_starts_with, to_owned_string};

#[test]
fn thousands_separators() {
    assert_eq!(fmt_num(0), "0");
    assert_eq!(fmt_num(7), "7");
    assert_eq!(fmt_num(999), "999");
    assert_eq!(fmt_num(1000), "1,000");
    assert_eq!(fmt_num(43950), "43,950");
    assert_eq!(fmt_num(110380), "110,380");
    assert_eq!(fmt_num(26289), "26,289");
    assert_eq!(fmt_num(1234567), "1,234,567");
    assert_eq!(fmt_num(u64::MAX), "18,446,744,073,709,551,615");
}

#[test]
fn decimal_text() {
    assert_eq!(decimal_string(0), "0");
    assert_eq!(decimal_string(10), "10");
    assert_eq!(decimal_string(u64::MAX), u64::MAX.to_string());
}

#[test]
fn styling_on_and_off() {
    assert_eq!(ansi_for("1", "Exported", true), "\x1b[1mExported\x1b[0m");
    assert_eq!(ansi_for("36", "8ms", true), "\x1b[36m8ms\x1b[0m");
    assert_eq!(ansi_for("2", "Format:", false), "Format:");
}

#[test]
fn named_styles_keep_the_text() {
    for (styled, code) in [(bold("x"), "1"), (dim("x"), "2"), (green("x"), "32"), (cyan("x"), "36")] {
        assert!(styled == "x" || styled == format!("\x1b[{code}mx\x1b[0m"));
    }
}

#[test]
fn plural_endings() {
    assert_eq!(plural_suffix(0), "s");
    assert_eq!(plural_suffix(1), "");
    assert_eq!(plural_suffix(2), "s");
}

#[test]
fn self_contained_pages() {
    assert!(is_self_contained("<!DOCTYPE html><html></html>"));
    assert!(!is_self_contained("<a href=\"http://example.com\">"));
    assert!(!is_self_contained("<link href=\"https://cdn.example.com/x.css\">"));
    assert!(is_self_contained("http:/ not a url, https: neither"));
    assert!(is_self_contained(""));
}

#[test]
fn string_helpers() {
    assert!(str_contains("addyosmaniskills", "addy"));
    assert!(str_contains("abc", ""));
    assert!(!str_contains("ab", "abc"));
    assert!(str_contains("xxabcxx", "abc"));
    assert!(str_starts_with("6162c547-aaaa", "6162c547"));
    assert!(!str_starts_with("6162", "6162c547"));
    assert!(str_equals("today", "today"));
    assert!(!str_equals("today", "Today"));
    assert!(str_less("2025-06-15T10:00:00Z", "2025-06-15T12:00:00Z"));
    assert!(!str_less("b", "a"));
    assert!(str_less("a", "ab"));
    assert!(!str_less("a", "a"));
    assert!(str_less("z", "é"));
    assert_eq!(to_owned_string("héllo"), "héllo");
}
