use woa_filters::engine::replace_all_str;
use woa_filters::filters::{ogham_text, seanchlo_text};
use woa_filters::host::{to_ogham, to_seanchlo};
use woa_filters::table::{PatternTable, Rule, TableError};

use std::collections::HashMap;

const START: &str = "&#x169b;";
const G_L: &str = "&#x1682;";
const G_S: &str = "&#x1684;";
const G_H: &str = "&#x1686;";
const G_D: &str = "&#x1687;";
const G_T: &str = "&#x1688;";
const G_Q: &str = "&#x168a;";
const G_R: &str = "&#x168f;";
const G_A: &str = "&#x1690;";
const G_O: &str = "&#x1691;";
const G_U: &str = "&#x1692;";
const G_E: &str = "&#x1693;";
const G_I: &str = "&#x1694;";
const G_SP: &str = "&#x1680;";

#[test]
fn ogham_hello_world_concrete() {
    let out = ogham_text("hello world");
    let expected = format!("{START}{G_H}{G_E}{G_L}{G_L}{G_O}{G_SP}w{G_O}{G_R}{G_L}{G_D}");
    assert_eq!(out, expected);
    assert!(!out.contains('"'));
}

#[test]
fn ogham_sting_digraph_precedence() {
    // "ng" is consumed first, then "st"; the single-letter rules for
    // `s` and `t` never fire. The `d` of the ng-glyph and the `e` of
    // the st-glyph are themselves rewritten by the later d/e rules.
    let out = ogham_text("sting");
    let expected = format!("{START}&#x168{G_E};{G_I}&#x168{G_D};");
    assert_eq!(out, expected);
    assert!(!out.contains(G_S));
    assert!(!out.contains(G_T));
}

#[test]
fn ogham_replacement_cascade() {
    // The ng replacement contains a literal `d`, which the later d rule
    // rewrites; likewise the q replacement's `a`.
    assert_eq!(ogham_text("ng"), format!("{START}&#x168{G_D};"));
    assert_eq!(ogham_text("q"), format!("{START}&#x168{G_A};"));
}

#[test]
fn seanchlo_nonoverlap_aaa() {
    // One greedy left-to-right "aa" match, then the leftover "a" passes
    // through; matches never overlap.
    assert_eq!(seanchlo_text("aaa"), "\u{00E1}a");
}

#[test]
fn seanchlo_digraphs() {
    assert_eq!(seanchlo_text("aachth"), "\u{00E1}\u{010B}\u{1E6B}");
    assert_eq!(seanchlo_text("bhfuil"), "\u{1E03}fuil");
}

#[test]
fn quote_stripping() {
    let out = ogham_text("\"x\"");
    assert_eq!(out, format!("{START}x"));
    assert!(!out.contains('"'));
    assert_eq!(seanchlo_text("a\"b"), "ab");
}

#[test]
fn ogham_sentinel_prefix() {
    for input in ["", "abc", "\"\"", "xyz ", "&#x169b;"] {
        let out = ogham_text(input);
        assert!(out.starts_with(START));
    }
}

#[test]
fn filters_deterministic() {
    let a1 = ogham_text("some input");
    let a2 = ogham_text("some input");
    assert_eq!(a1.as_bytes(), a2.as_bytes());
    let b1 = seanchlo_text("sgeeal");
    let b2 = seanchlo_text("sgeeal");
    assert_eq!(b1.as_bytes(), b2.as_bytes());
}

#[test]
fn empty_input() {
    assert_eq!(ogham_text(""), START);
    assert_eq!(seanchlo_text(""), "");
}

#[test]
fn passthrough_unmatched_text() {
    // None of the Ogham match sequences occur in this input, so it passes
    // through with only the sentinel added.
    assert_eq!(ogham_text("XYZ-123"), format!("{START}XYZ-123"));
    // "cat" holds no Seanchló digraph, so it is returned unchanged.
    assert_eq!(seanchlo_text("cat"), "cat");
}

#[test]
fn engine_single_pass() {
    assert_eq!(replace_all_str("banana", "an", "X"), "bXXa");
    assert_eq!(replace_all_str("aaa", "aa", "Z"), "Za");
    assert_eq!(replace_all_str("none here", "zz", "Y"), "none here");
    assert_eq!(replace_all_str("aaaa", "aa", "b"), "bb");
    assert_eq!(replace_all_str("ab", "abc", "z"), "ab");
}

#[test]
fn engine_no_rescan_of_replacement() {
    // A replacement that contains its own pattern is not rescanned within
    // the same pass, so the rewrite cannot run away.
    assert_eq!(replace_all_str("aa", "a", "aa"), "aaaa");
}

#[test]
fn table_validation_ok() {
    let rules = vec![Rule::new("a", "x"), Rule::new("b", "y")];
    assert!(PatternTable::new(rules).is_ok());
}

#[test]
fn table_validation_empty_pattern() {
    let rules = vec![Rule::new("a", "x"), Rule::new("", "y")];
    assert_eq!(PatternTable::new(rules).unwrap_err(), TableError::EmptyPattern);
}

#[test]
fn table_validation_duplicate_pattern() {
    let rules = vec![Rule::new("a", "x"), Rule::new("a", "y")];
    assert_eq!(PatternTable::new(rules).unwrap_err(), TableError::DuplicatePattern);
}

#[test]
fn to_ogham_string_value() {
    // The host coerces a string value to its quoted JSON form; the quotes
    // are stripped after substitution.
    let value = serde_json::Value::String(String::from("hello world"));
    let args: HashMap<String, serde_json::Value> = HashMap::new();
    let out = to_ogham(&value, &args).unwrap();
    let expected = format!("{START}{G_H}{G_E}{G_L}{G_L}{G_O}{G_SP}w{G_O}{G_R}{G_L}{G_D}");
    assert_eq!(out, serde_json::Value::String(expected));
}

#[test]
fn to_ogham_number_value() {
    let value = serde_json::Value::from(42u64);
    let args: HashMap<String, serde_json::Value> = HashMap::new();
    let out = to_ogham(&value, &args).unwrap();
    assert_eq!(out, serde_json::Value::String(format!("{START}42")));
}

#[test]
fn to_seanchlo_string_value() {
    let value = serde_json::Value::String(String::from("bhfuil"));
    let args: HashMap<String, serde_json::Value> = HashMap::new();
    let out = to_seanchlo(&value, &args).unwrap();
    assert_eq!(out, serde_json::Value::String(String::from("\u{1E03}fuil")));
}

#[test]
fn to_ogham_deterministic() {
    let value = serde_json::Value::String(String::from("deagh"));
    let args: HashMap<String, serde_json::Value> = HashMap::new();
    let first = to_ogham(&value, &args).unwrap();
    let second = to_ogham(&value, &args).unwrap();
    assert_eq!(first, second);
}

#[test]
fn to_ogham_boolean_value() {
    // `true` coerces to the text "true"; t, r, u and e are all mapped.
    let value = serde_json::Value::Bool(true);
    let args: HashMap<String, serde_json::Value> = HashMap::new();
    let out = to_ogham(&value, &args).unwrap();
    assert_eq!(out, serde_json::Value::String(format!("{START}{G_T}{G_R}{G_U}{G_E}")));
}
