use ycloud_console_cli::config::{temporary_file_name, temporary_name};
use ycloud_console_cli::json::{json_str_array, JsonValue};

#[test]
fn temporary_config_names_sit_beside_the_config() {
    assert_eq!(
        temporary_file_name(Some("config.toml"), 0xab),
        ".config.toml.000000000000000000000000000000ab.tmp"
    );
    assert_eq!(
        temporary_file_name(None, 0),
        ".config.00000000000000000000000000000000.tmp"
    );
    let fresh = temporary_name(Some("profile.toml")).unwrap();
    assert!(fresh.starts_with(".profile.toml."));
    assert!(fresh.ends_with(".tmp"));
    assert_eq!(fresh.len(), ".profile.toml.".len() + 32 + ".tmp".len());
}

#[test]
fn json_members_are_found_by_name() {
    let value = JsonValue::Object(vec![
        ("a".to_string(), JsonValue::Str("first".to_string())),
        ("a".to_string(), JsonValue::Str("second".to_string())),
        ("n".to_string(), JsonValue::Null),
    ]);
    assert_eq!(value.get("a").and_then(JsonValue::as_str), Some("first"));
    assert_eq!(value.get("n").and_then(JsonValue::as_str), None);
    assert_eq!(value.get("missing"), None);
    assert_eq!(JsonValue::Null.get("a"), None);
    assert_eq!(
        json_str_array(&vec!["x".to_string()]),
        JsonValue::Array(vec![JsonValue::Str("x".to_string())])
    );
}
