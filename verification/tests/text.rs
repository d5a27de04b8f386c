use ceilidh::json::{parse, Json};
use ceilidh::order::newest_first;
use ceilidh::text;
use ceilidh::text::{
    any_line_is, blank, contains, decimal_text, find_line, join, parse_u64, same_opt,
    signed_text, split_once, starts_with, tail_chars, to_lower, trim, trim_end_char,
    truncate_chars,
};

#[test]
fn white_space_is_trimmed() {
    assert_eq!(trim(" \t\u{a0}a b\u{3000}\n"), "a b");
    assert_eq!(trim(" "), "");
    assert!(blank("\u{2003}\n"));
    assert!(!blank(" x "));
    assert_eq!(trim_end_char("a//", '/'), "a");
}

#[test]
fn numbers_are_written_and_read() {
    assert_eq!(decimal_text(0), "0");
    assert_eq!(decimal_text(u64::MAX), "18446744073709551615");
    assert_eq!(signed_text(i64::MIN), "-9223372036854775808");
    assert_eq!(signed_text(7), "7");
    assert_eq!(parse_u64("18446744073709551615"), Some(u64::MAX));
    assert_eq!(parse_u64("18446744073709551616"), None);
    assert_eq!(parse_u64("+5"), Some(5));
    assert_eq!(parse_u64(""), None);
    assert_eq!(parse_u64("1a"), None);
}

#[test]
fn texts_are_cut_and_joined() {
    assert_eq!(split_once("a=b=c", '='), Some(("a".to_string(), "b=c".to_string())));
    assert_eq!(split_once("abc", '='), None);
    let parts = vec!["a".to_string(), "b".to_string()];
    assert_eq!(join(&parts, ", "), "a, b");
    assert_eq!(text::concat(&parts), "ab");
    assert_eq!(join(&Vec::new(), ", "), "");
    assert!(contains("abcd", "bc"));
    assert!(!contains("abcd", "ca"));
    assert!(contains("x", ""));
    assert!(starts_with("abc", "ab"));
    assert!(!starts_with("a", "ab"));
    assert_eq!(to_lower("AbC\u{c9}"), "abc\u{c9}");
    assert!(same_opt(&None, &None));
    assert!(!same_opt(&Some("a".to_string()), &None));
}

#[test]
fn long_texts_are_shortened() {
    assert_eq!(truncate_chars("abcdef", 6), "abcdef");
    assert_eq!(truncate_chars("abcdef", 5), "ab...");
    assert_eq!(truncate_chars("abcdef", 3), "abc");
    assert_eq!(tail_chars(" abcdef ", 6), "abcdef");
    assert_eq!(tail_chars("abcdef", 2), "...ef");
}

#[test]
fn lines_are_found() {
    assert_eq!(find_line("\n \n x \ny"), Some("x".to_string()));
    assert_eq!(find_line("\n \n"), None);
    assert!(any_line_is("a\n  b  \nc", "b"));
    assert!(!any_line_is("ab", "b"));
}

#[test]
fn the_newest_leads_and_the_undated_trail() {
    assert_eq!(newest_first(&vec![Some(1), None, Some(3), Some(1)]), vec![2, 0, 3, 1]);
}

#[test]
fn json_is_read() {
    let value = parse("{\"b\":[1,-2.5,true,null,\"x\"],\"a\":{}}").unwrap();
    assert_eq!(
        value.get("b"),
        Some(&Json::Array(vec![
            Json::Number("1".to_string()),
            Json::Number("-2.5".to_string()),
            Json::Bool(true),
            Json::Null,
            Json::Text("x".to_string()),
        ]))
    );
    assert_eq!(value.get("a"), Some(&Json::Object(Vec::new())));
    assert_eq!(value.get("c"), None);
    assert!(parse("{").is_none());
    assert!(parse("").is_none());
    assert_eq!(value.clone(), value);
}
