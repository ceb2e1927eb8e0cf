use rust_libretro_proc::literal::is_str_literal_text;
use rust_libretro_proc::tokens::decode_literals;

fn decode(repr: &str) -> Option<String> {
    decode_literals(&vec![repr.to_string()]).pop().unwrap()
}

#[test]
fn plain_string_literal() {
    assert_eq!(decode("\"abc\""), Some("abc".to_string()));
}

#[test]
fn escapes_are_resolved() {
    assert_eq!(decode("\"a\\nb\\\"c\""), Some("a\nb\"c".to_string()));
}

#[test]
fn raw_string_literal() {
    assert_eq!(decode("r#\"x\"y\"#"), Some("x\"y".to_string()));
}

#[test]
fn other_literals_are_not_strings() {
    assert_eq!(decode("1"), None);
    assert_eq!(decode("b\"bytes\""), None);
    assert_eq!(decode("'c'"), None);
}

#[test]
fn table_keeps_its_order() {
    let values = decode_literals(&vec!["\"a\"".to_string(), "2".to_string(), "\"c\"".to_string()]);
    assert_eq!(values, vec![Some("a".to_string()), None, Some("c".to_string())]);
}

#[test]
fn texts_of_string_literals() {
    assert!(is_str_literal_text("\"abc\""));
    assert!(is_str_literal_text("\"a\\x41\\u{263A}\\n\""));
    assert!(is_str_literal_text("r##\"a\"#b\"##"));
    assert!(is_str_literal_text("\"abc\"suffix"));
    assert!(!is_str_literal_text("c\"abc\""));
    assert!(!is_str_literal_text("cr\"abc\""));
    assert!(!is_str_literal_text("\"\\q\""));
    assert!(!is_str_literal_text("\"\\x80\""));
    assert!(!is_str_literal_text("\"\\u{D800}\""));
    assert!(!is_str_literal_text("\"\\u{1234567}\""));
    assert!(!is_str_literal_text("\"abc"));
    assert!(!is_str_literal_text("\"a\rb\""));
    assert!(!is_str_literal_text("r#\"abc\""));
    assert!(!is_str_literal_text("'c'"));
    assert!(!is_str_literal_text(""));
}

#[test]
fn escapes_of_every_kind_are_resolved() {
    assert_eq!(decode("\"a\\x41\\u{263A}\\t\\0\""), Some("aA\u{263A}\t\0".to_string()));
    assert_eq!(decode("\"line \\\n   next\""), Some("line next".to_string()));
}

#[test]
fn literals_syn_cannot_read_are_not_strings() {
    assert_eq!(decode("c\"abc\""), None);
    assert_eq!(decode("\"\\q\""), None);
    assert_eq!(decode("\"\\u{D800}\""), None);
}

#[test]
fn unicode_escapes_with_underscores_are_read() {
    assert!(is_str_literal_text("\"\\u{1_F600}\""));
    assert_eq!(decode("\"\\u{1_F600}\""), Some("\u{1F600}".to_string()));
    assert!(!is_str_literal_text("\"\\u{_1}\""));
    assert!(!is_str_literal_text("\"\\u{}\""));
}

#[test]
fn suffixes_beyond_ascii_are_read() {
    assert!(is_str_literal_text("\"abc\"é"));
    assert_eq!(decode("\"abc\"é"), Some("abc".to_string()));
    assert_eq!(decode("r\"x\"_tail"), Some("x".to_string()));
    assert!(!is_str_literal_text("\"abc\"1x"));
}
