//! Texts and tables.

use openab::patterns::splice;
use openab::table::Table;
use openab::text::{
    decimal_string, join, parse_u32, parse_u64, replace, split, split_once, split_whitespace,
    strip_prefix, trim, trim_end, trim_of, trim_start,
};

#[test]
fn texts_are_trimmed() {
    assert_eq!(trim(" \u{a0}a b\t\n"), "a b");
    assert_eq!(trim_start("  a "), "a ");
    assert_eq!(trim_end("  a "), "  a");
    assert_eq!(trim_of("--a-b-", '-'), "a-b");
}

#[test]
fn texts_are_taken_apart_and_put_together() {
    assert_eq!(split("a,,b", ','), ["a", "", "b"]);
    assert_eq!(split("", ','), [""]);
    assert_eq!(split_whitespace(" a  b\n"), ["a", "b"]);
    assert_eq!(split_once("a:b:c", ':'), Some(("a".to_string(), "b:c".to_string())));
    assert_eq!(split_once("abc", ':'), None);
    assert_eq!(strip_prefix("prefix-x", "prefix-").as_deref(), Some("x"));
    assert_eq!(strip_prefix("x", "prefix-"), None);
    let parts = vec!["a".to_string(), "".to_string(), "b".to_string()];
    assert_eq!(join(&parts, ","), "a,,b");
    assert_eq!(split(&join(&parts, ","), ','), parts);
    assert_eq!(replace("aXXbXX", "XX", "-"), "a-b-");
}

#[test]
fn inserts_stand_between_texts() {
    let texts = vec!["a".to_string(), "b".to_string(), "c".to_string()];
    let inserts = vec!["1".to_string(), "2".to_string()];
    assert_eq!(splice(&texts, &inserts), "a1b2c");
}

#[test]
fn numbers_read_back() {
    for n in [0, 7, 10, u64::MAX] {
        assert_eq!(parse_u64(&decimal_string(n)), Some(n));
    }
    assert_eq!(parse_u64("18446744073709551616"), None);
    assert_eq!(parse_u64("+5"), "+5".parse::<u64>().ok());
    assert_eq!(parse_u64(""), None);
    assert_eq!(parse_u64("1a"), None);
    assert_eq!(parse_u32("4294967295"), Some(u32::MAX));
    assert_eq!(parse_u32("4294967296"), None);
}

#[test]
fn a_table_holds_each_key_once() {
    let mut table: Table<String> = Table::new();
    table.insert("a".to_string(), "1".to_string());
    table.insert("a".to_string(), "2".to_string());
    table.insert("b".to_string(), "3".to_string());
    assert_eq!(table.len(), 2);
    assert_eq!(table.get("a").map(String::as_str), Some("2"));
    let copy = table.duplicate();
    assert_eq!(table.remove("a").as_deref(), Some("2"));
    assert!(!table.contains_key("a"));
    assert!(copy.contains_key("a"));
    table.clear();
    assert_eq!(table.len(), 0);
    assert_eq!(copy.len(), 2);
}
