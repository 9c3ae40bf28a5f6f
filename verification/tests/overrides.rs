use codex_napi::overrides::{
    overrides_of, parse_overrides, parse_toml_value, parsed_or_text, take_wrapped,
    ConfigOverrideEntry, CreateConversationOptions,
};

fn entry(key: &str, value: &str) -> ConfigOverrideEntry {
    ConfigOverrideEntry { key: key.to_string(), value: value.to_string() }
}

#[test]
fn numbers_booleans_and_structures_are_detected() {
    assert_eq!(parse_toml_value("5"), Some(toml::Value::Integer(5)));
    assert_eq!(parse_toml_value("-17"), Some(toml::Value::Integer(-17)));
    assert_eq!(parse_toml_value("1.5"), Some(toml::Value::Float(1.5)));
    assert_eq!(parse_toml_value("true"), Some(toml::Value::Boolean(true)));
    assert_eq!(parse_toml_value("\"quoted\""), Some(toml::Value::String("quoted".to_string())));
    assert_eq!(
        parse_toml_value("[1, 2]"),
        Some(toml::Value::Array(vec![toml::Value::Integer(1), toml::Value::Integer(2)]))
    );
    let mut table = toml::map::Map::new();
    table.insert("a".to_string(), toml::Value::Integer(1));
    assert_eq!(parse_toml_value("{ a = 1 }"), Some(toml::Value::Table(table)));
}

#[test]
fn text_that_toml_cannot_read_is_not_a_value() {
    assert_eq!(parse_toml_value("hello world"), None);
    assert_eq!(parse_toml_value("gpt-4o"), None);
    assert_eq!(parse_toml_value(""), None);
    assert_eq!(parse_toml_value("1\n_x_ = 2"), None);
}

#[test]
fn value_is_the_wrapped_entry_not_the_document() {
    assert_eq!(parse_toml_value("1\ny = 2"), Some(toml::Value::Integer(1)));
    assert_eq!(take_wrapped(None), None);
    assert_eq!(take_wrapped(Some(toml::Value::Integer(3))), None);
    let mut table = toml::map::Map::new();
    table.insert("other".to_string(), toml::Value::Integer(1));
    assert_eq!(take_wrapped(Some(toml::Value::Table(table.clone()))), None);
    table.insert("_x_".to_string(), toml::Value::Boolean(false));
    assert_eq!(take_wrapped(Some(toml::Value::Table(table))), Some(toml::Value::Boolean(false)));
}

#[test]
fn unreadable_text_is_kept_as_a_string() {
    assert_eq!(parsed_or_text(None, "plain".to_string()), toml::Value::String("plain".to_string()));
    assert_eq!(parsed_or_text(Some(toml::Value::Integer(1)), "1".to_string()), toml::Value::Integer(1));
}

#[test]
fn overrides_keep_their_keys_and_order() {
    let pairs = parse_overrides(vec![
        entry("model", "gpt-4o"),
        entry("retries", "3"),
        entry("sandbox.enabled", "false"),
        entry("model", "\"o3\""),
    ]);
    assert_eq!(
        pairs,
        vec![
            ("model".to_string(), toml::Value::String("gpt-4o".to_string())),
            ("retries".to_string(), toml::Value::Integer(3)),
            ("sandbox.enabled".to_string(), toml::Value::Boolean(false)),
            ("model".to_string(), toml::Value::String("o3".to_string())),
        ]
    );
    assert_eq!(parse_overrides(Vec::new()), Vec::new());
}

#[test]
fn options_without_overrides_hold_none() {
    assert_eq!(overrides_of(None), Vec::new());
    assert_eq!(overrides_of(Some(CreateConversationOptions { overrides: None })), Vec::new());
    assert_eq!(
        overrides_of(Some(CreateConversationOptions { overrides: Some(vec![entry("k", "v")]) })),
        vec![entry("k", "v")]
    );
}
