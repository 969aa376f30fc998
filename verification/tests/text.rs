use mesh_watchy::numbers::{bits_of, decimal, hex, low32, parse_int};
use mesh_watchy::text::{chars_of, nth_piece, split, starts_with, string_of, strip_prefix, trim};
use mesh_watchy::textmap::TextMap;

fn parse(text: &str, base: u64) -> Option<i64> {
    parse_int(&chars_of(text), base)
}

#[test]
fn numbers_are_written() {
    assert_eq!(decimal(0), "0");
    assert_eq!(decimal(i64::MIN), "-9223372036854775808");
    assert_eq!(decimal(i64::MAX), "9223372036854775807");
    assert_eq!(hex(0), "00000000");
    assert_eq!(hex(0x2e268b50), "2e268b50");
    assert_eq!(hex(0x1_2345_6789), "123456789");
    assert_eq!(hex(u64::MAX), "ffffffffffffffff");
    assert_eq!(bits_of(-1), u64::MAX);
    assert_eq!(low32(-1), u32::MAX);
    assert_eq!(low32(0x5_0000_0007), 7);
}

#[test]
fn numbers_are_read_back() {
    for number in [0, 1, -1, 42, i64::MIN, i64::MAX] {
        assert_eq!(parse(&decimal(number), 10), Some(number));
    }
    for number in [0u64, 9, 0x2e268b50, i64::MAX as u64] {
        assert_eq!(parse(&hex(number), 16), Some(number as i64));
    }
    assert_eq!(parse("", 10), None);
    assert_eq!(parse("-", 10), None);
    assert_eq!(parse("+7", 10), Some(7));
    assert_eq!(parse("+-7", 10), None);
    assert_eq!(parse("1a", 10), None);
    assert_eq!(parse("1A", 16), Some(26));
    assert_eq!(parse("9223372036854775808", 10), None);
    assert_eq!(parse("-9223372036854775809", 10), None);
    assert_eq!(parse("000000000000000000000000000000001", 10), Some(1));
}

#[test]
fn texts_are_cut_and_joined() {
    let pieces: Vec<String> = split("a//b/", '/').iter().map(string_of).collect();
    assert_eq!(pieces, vec!["a", "", "b", ""]);
    assert_eq!(pieces.join("/"), "a//b/");
    assert_eq!(split("", '/').len(), 1);
    assert_eq!(nth_piece("a//b/", '/', 2), Some("b".to_string()));
    assert_eq!(nth_piece("a//b/", '/', 4), None);
    assert!(starts_with("sqlite:x", "sqlite:"));
    assert!(!starts_with("sql", "sqlite:"));
    assert_eq!(strip_prefix("sqlite:x", "sqlite:"), Some("x".to_string()));
    assert_eq!(strip_prefix("x", "sqlite:"), None);
    assert_eq!(string_of(&trim(&chars_of("\u{2003} a b\n"))), "a b");
    assert_eq!(string_of(&trim(&chars_of(" \t "))), "");
}

#[test]
fn maps_keep_one_entry_for_a_name() {
    let mut counts: TextMap<u64> = TextMap::new();
    counts.bump("a");
    counts.bump("b");
    counts.bump("a");
    assert_eq!(counts.get("a"), Some(&2));
    assert_eq!(counts.get("b"), Some(&1));
    assert_eq!(counts.get("c"), None);
    let copy = counts.copy();
    counts.insert("a".to_string(), 9);
    assert_eq!(counts.get("a"), Some(&9));
    assert_eq!(copy.get("a"), Some(&2));
    counts.bump("c");
    let names: Vec<&str> = counts.entries().iter().map(|e| e.0.as_str()).collect();
    assert_eq!(names, vec!["a", "b", "c"]);
}
