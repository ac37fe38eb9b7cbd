use btce_trollbox::json::{has_overlong_exponent, parsed_shape, JsonNumber, JsonShape};
use btce_trollbox::text::{chars_of, remove_all, same_text, string_from};

#[test]
fn remove_all_is_std_replace_with_nothing() {
    for (s, p) in [
        ("\"chat_en\"", "\""),
        ("chat_en", "chat_"),
        ("chchat_at_", "chat_"),
        ("aaaa", "aa"),
        ("abc", ""),
        ("", "x"),
        ("xyz", "xyzw"),
        ("ünïcødé", "ï"),
    ] {
        assert_eq!(remove_all(s, p), s.replace(p, ""), "{} {}", s, p);
    }
    assert_eq!(remove_all("chchat_at_", "chat_"), "chat_");
}

#[test]
fn char_helpers() {
    assert_eq!(chars_of("aé"), vec!['a', 'é']);
    assert_eq!(string_from(&vec!['a', 'é']), "aé");
    assert!(same_text("ask", "ask"));
    assert!(!same_text("ask", "as"));
    assert!(!same_text("ask", "asc"));
}

#[test]
fn parsed_shapes() {
    assert_eq!(parsed_shape("nope"), None);
    assert_eq!(parsed_shape(""), None);
    assert_eq!(parsed_shape("null"), Some(JsonShape::Null));
    assert_eq!(parsed_shape("true"), Some(JsonShape::Boolean(true)));
    assert_eq!(parsed_shape("-3"), Some(JsonShape::Number(JsonNumber::Signed(-3))));
    assert_eq!(parsed_shape("7"), Some(JsonShape::Number(JsonNumber::Unsigned(7))));
    assert_eq!(
        parsed_shape("0.5"),
        Some(JsonShape::Number(JsonNumber::Float(0.5f64.to_bits())))
    );
    assert_eq!(parsed_shape("\"a\\\"b\""), Some(JsonShape::Text(String::from("a\"b"))));
    assert_eq!(parsed_shape("[1,[2],3]"), Some(JsonShape::Array(3)));
    assert_eq!(parsed_shape("{\"a\":1}"), Some(JsonShape::Object));
}

#[test]
fn overlong_exponents_are_found() {
    assert!(has_overlong_exponent("[1e99999999999999999999]"));
    assert!(has_overlong_exponent("{\"a\": -2.5E+99999999999999999999}"));
    assert!(has_overlong_exponent("1e-99999999999999999999"));
    assert!(!has_overlong_exponent("1e99"));
    // leading zeros add nothing to the exponent's value
    assert!(!has_overlong_exponent("1e000000000000000000000000001"));
    // inside a string it is no number
    assert!(!has_overlong_exponent("\"1e99999999999999999999\""));
    assert!(!has_overlong_exponent("[\"a\\\"1e99999999999999999999\"]"));
    assert!(has_overlong_exponent("[\"a\\\\\", 1e99999999999999999999]"));
    // an `e` that follows no digit opens no exponent
    assert!(!has_overlong_exponent("true e99999999999999999999"));
    let max = usize::MAX.to_string();
    assert!(!has_overlong_exponent(&format!("1e{}", max)));
    let over = (usize::MAX as u128 + 1).to_string();
    assert!(has_overlong_exponent(&format!("1e{}", over)));
}

#[test]
fn overlong_exponents_are_not_parsed() {
    assert_eq!(parsed_shape("[1e99999999999999999999]"), None);
    assert_eq!(parsed_shape("[1e99]"), Some(JsonShape::Array(1)));
}
