use pulse::json::{
    lookup_tokens, member_key, parse_index, plain_text_of, push_decimal, push_quoted, unescape_token_chars, Json,
    JsonNumber,
};
use pulse::text::{
    chars_eq, matches_at, occurs_in_chars, remove_char_chars, replace_all_chars, replace_first_chars, split_chars,
    str_chars, sub_chars,
};
use pulse::util::strip_control_characters;

fn chars(s: &str) -> Vec<char> {
    s.chars().collect()
}

fn text(v: &Json) -> String {
    let mut out = Vec::new();
    v.push_text(&mut out);
    out.into_iter().collect()
}

#[test]
fn json_text_is_compact() {
    let v = Json::Object(vec![
        ("a".to_string(), Json::Array(vec![Json::Null, Json::Bool(true), Json::Bool(false)])),
        ("b".to_string(), Json::Number(JsonNumber::PosInt(42))),
        ("c".to_string(), Json::Number(JsonNumber::NegInt(-7))),
        ("d".to_string(), Json::Number(JsonNumber::Float("1.5".to_string()))),
        ("e".to_string(), Json::Object(vec![])),
        ("f".to_string(), Json::Array(vec![])),
    ]);
    assert_eq!(text(&v), r#"{"a":[null,true,false],"b":42,"c":-7,"d":1.5,"e":{},"f":[]}"#);
    assert_eq!(text(&Json::Number(JsonNumber::NegInt(i64::MIN))), "-9223372036854775808");
    assert_eq!(text(&Json::Number(JsonNumber::PosInt(u64::MAX))), "18446744073709551615");
}

#[test]
fn json_strings_are_escaped() {
    let v = Json::Str("q\"b\\n\nt\tc\u{1}\u{8}\u{c}\ré".to_string());
    assert_eq!(text(&v), "\"q\\\"b\\\\n\\nt\\tc\\u0001\\b\\f\\ré\"");
    let mut out = vec!['x'];
    push_quoted(&mut out, "\u{1f}");
    assert_eq!(out.into_iter().collect::<String>(), "x\"\\u001f\"");
}

#[test]
fn decimals() {
    let mut out = Vec::new();
    push_decimal(&mut out, 0);
    push_decimal(&mut out, 1009);
    assert_eq!(out.into_iter().collect::<String>(), "01009");
}

#[test]
fn plain_text_drops_quotes() {
    assert_eq!(plain_text_of(&Json::Str("opened".to_string())), chars("opened"));
    let v = Json::Array(vec![Json::Str("a".to_string()), Json::Number(JsonNumber::PosInt(1))]);
    assert_eq!(plain_text_of(&v), chars("[a,1]"));
}

#[test]
fn array_indices() {
    assert_eq!(parse_index(&chars("0")), Some(0));
    assert_eq!(parse_index(&chars("12")), Some(12));
    assert_eq!(parse_index(&chars("01")), None);
    assert_eq!(parse_index(&chars("+1")), None);
    assert_eq!(parse_index(&chars("")), None);
    assert_eq!(parse_index(&chars("1a")), None);
    assert_eq!(parse_index(&chars("99999999999999999999999")), None);
}

#[test]
fn pointer_tokens_unescape() {
    assert_eq!(unescape_token_chars(&chars("a~1b")), chars("a/b"));
    assert_eq!(unescape_token_chars(&chars("a~0b")), chars("a~b"));
    assert_eq!(unescape_token_chars(&chars("~01")), chars("~1"));
}

#[test]
fn pointer_lookup() {
    let v = Json::Object(vec![
        ("a/b".to_string(), Json::Array(vec![Json::Null, Json::Str("x".to_string())])),
        ("m~n".to_string(), Json::Bool(true)),
    ]);
    let tokens = vec![chars("a~1b"), chars("1")];
    assert_eq!(lookup_tokens(&v, &tokens, 0).map(text), Some("\"x\"".to_string()));
    assert_eq!(lookup_tokens(&v, &tokens, 2).map(text), Some(text(&v)));
    let tokens = vec![chars("m~0n")];
    assert_eq!(lookup_tokens(&v, &tokens, 0).map(text), Some("true".to_string()));
    let tokens = vec![chars("a~1b"), chars("2")];
    assert!(lookup_tokens(&v, &tokens, 0).is_none());
    assert!(member_key(&v, &chars("m~n")).is_some());
    assert!(member_key(&Json::Null, &chars("m~n")).is_none());
}

#[test]
fn replacing() {
    assert_eq!(replace_all_chars(&chars("aaa"), &chars("aa"), &chars("b")), chars("ba"));
    assert_eq!(replace_all_chars(&chars("<x> and <x>"), &chars("<x>"), &chars("y")), chars("y and y"));
    assert_eq!(replace_first_chars(&chars("<x> and <x>"), &chars("<x>"), &chars("y")), chars("y and <x>"));
    assert_eq!(replace_first_chars(&chars("abc"), &chars("d"), &chars("y")), chars("abc"));
}

#[test]
fn splitting_and_searching() {
    assert_eq!(split_chars(&chars("a/b//c"), '/'), vec![chars("a"), chars("b"), chars(""), chars("c")]);
    assert_eq!(split_chars(&chars(""), '/'), vec![chars("")]);
    assert!(occurs_in_chars(&chars("my_private_repo"), &chars("private")));
    assert!(!occurs_in_chars(&chars("priv"), &chars("private")));
    assert!(matches_at(&chars("hello"), 1, &chars("ell")));
    assert!(!matches_at(&chars("hello"), 3, &chars("ll")));
    assert_eq!(remove_char_chars(&chars("\"a\"b\""), '"'), chars("ab"));
    assert_eq!(sub_chars(&chars("hello"), 1, 4), chars("ell"));
    assert!(chars_eq(&chars("ab"), &str_chars("ab")));
    assert!(!chars_eq(&chars("ab"), &chars("abc")));
}

#[test]
fn control_characters_are_stripped() {
    assert_eq!(strip_control_characters("a\nb\tc\u{0}d\u{1f} e".to_string()), "abcd e");
    assert_eq!(strip_control_characters("é ok".to_string()), "é ok");
}
