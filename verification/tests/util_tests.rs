use yotsuba::options::{CommandOption, OptionValue};
use yotsuba::util::{get_string_option, parse_id, parse_u16_value, truncate};

fn opt(name: &str, value: OptionValue) -> CommandOption {
    CommandOption { name: name.to_string(), value }
}

#[test]
fn parse_id_parses_valid_u64() {
    let parsed = parse_id("42", "TEST_ID").expect("id should parse");
    assert_eq!(parsed, 42);
}

#[test]
fn parse_id_reports_context_on_invalid_input() {
    let err = parse_id("not-a-number", "TEST_ID").expect_err("invalid id should fail");
    assert!(err.contains("TEST_ID must be a valid u64"));
}

#[test]
fn parse_id_rejects_overflow_and_sign() {
    assert_eq!(parse_id("18446744073709551615", "X"), Ok(u64::MAX));
    assert!(parse_id("18446744073709551616", "X").is_err());
    assert!(parse_id("-1", "X").is_err());
    assert_eq!(parse_id("+7", "X"), Ok(7));
    assert_eq!(parse_id("", "KEY"), Err("KEY must be a valid u64".to_string()));
}

#[test]
fn parse_u16_env_returns_some_for_valid_integer() {
    assert_eq!(parse_u16_value("8080"), Some(8080));
}

#[test]
fn parse_u16_env_returns_none_for_invalid_or_missing_values() {
    assert_eq!(parse_u16_value("invalid"), None);
    assert_eq!(parse_u16_value("65536"), None);
    assert_eq!(parse_u16_value(""), None);
}

#[test]
fn get_string_option_returns_matching_string_value() {
    let options = vec![
        opt("count", OptionValue::Integer(5)),
        opt("name", OptionValue::String("yotsuba".into())),
    ];
    assert_eq!(get_string_option(&options, "name"), Some("yotsuba"));
    assert_eq!(get_string_option(&options, "count"), None);
    assert_eq!(get_string_option(&options, "missing"), None);
}

#[test]
fn get_string_option_uses_first_option_with_the_name() {
    let options = vec![
        opt("name", OptionValue::Integer(1)),
        opt("name", OptionValue::String("later".into())),
    ];
    assert_eq!(get_string_option(&options, "name"), None);
}

#[test]
fn truncate_handles_short_ascii_and_unicode_inputs() {
    assert_eq!(truncate("hello", 10), "hello");
    assert_eq!(truncate("abcdef", 3), "abc...");
    assert_eq!(truncate("あいうえお", 3), "あいう...");
}

#[test]
fn truncate_keeps_text_of_exact_length() {
    assert_eq!(truncate("abc", 3), "abc");
    assert_eq!(truncate("", 0), "");
    assert_eq!(truncate("a", 0), "...");
}
