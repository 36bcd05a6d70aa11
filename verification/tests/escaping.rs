use wifiqr::decimal::{digit_char, push_decimal};
use wifiqr::escape::{contains_reserved, escape, render, reserved};

#[test]
fn test_reserved_characters() {
    for c in ['\\', '"', ';', ':'] {
        assert!(reserved(c));
    }
    for c in ['a', ',', '\'', ' ', '/', '\n', '\u{e9}'] {
        assert!(!reserved(c));
    }
}

#[test]
fn test_escape() {
    assert_eq!(escape(""), "");
    assert_eq!(escape("plain text"), "plain text");
    assert_eq!(escape("\\"), "\\\\");
    assert_eq!(escape("\""), "\\\"");
    assert_eq!(escape(";"), "\\;");
    assert_eq!(escape(":"), "\\:");
    assert_eq!(escape("':'"), "'\\:'");
    assert_eq!(escape("\"foo;bar\\baz\""), "\\\"foo\\;bar\\\\baz\\\"");
    assert_eq!(escape("\\\\"), "\\\\\\\\");
    assert_eq!(escape("\\;"), "\\\\\\;");
}

fn read_back(text: &str) -> String {
    let mut out = String::new();
    let mut chars = text.chars();
    while let Some(c) = chars.next() {
        if c == '\\' {
            if let Some(next) = chars.next() {
                out.push(next);
            } else {
                out.push(c);
            }
        } else {
            out.push(c);
        }
    }
    out
}

#[test]
fn test_escape_round_trip() {
    for field in ["", "abc", "a\\b", "\\", "\\\\;", "\"q\"", ":;\"\\", "x:y;z", "caf\u{e9};"] {
        let escaped = escape(field);
        assert_eq!(read_back(&escaped), field);
        let reserved_here = field.chars().filter(|c| reserved(*c)).count();
        assert_eq!(escaped.chars().count(), field.chars().count() + reserved_here);
    }
}

#[test]
fn test_escape_is_the_four_replacements_in_order() {
    for field in ["", "abc", "a\\b", "\\;", "\"q\"", ":;\"\\", "x:y;z", "\\\\\\"] {
        let replaced = field
            .replace('\\', "\\\\")
            .replace('"', "\\\"")
            .replace(';', "\\;")
            .replace(':', "\\:");
        assert_eq!(escape(field), replaced);
    }
}

#[test]
fn test_contains_reserved() {
    assert!(!contains_reserved(""));
    assert!(!contains_reserved("abc def"));
    assert!(contains_reserved("abc;"));
    assert!(contains_reserved(":abc"));
    assert!(contains_reserved("a\"c"));
    assert!(contains_reserved("a\\c"));
}

#[test]
fn test_render() {
    assert_eq!(render("test", false), "test");
    assert_eq!(render("test", true), "\"test\"");
    assert_eq!(render("te;st", false), "te\\;st");
    assert_eq!(render("te;st", true), "te\\;st");
    assert_eq!(render("", true), "\"\"");
    assert_eq!(render("", false), "");
}

#[test]
fn test_digit_char() {
    let digits: Vec<char> = (0..10).map(digit_char).collect();
    assert_eq!(digits, vec!['0', '1', '2', '3', '4', '5', '6', '7', '8', '9']);
}

#[test]
fn test_push_decimal() {
    for n in [0u32, 1, 9, 10, 11, 99, 100, 101, 177, 185, 1000, 65535, 2147483647, u32::MAX] {
        let mut out = String::from("n=");
        push_decimal(&mut out, n);
        assert_eq!(out, format!("n={}", n));
    }
}
