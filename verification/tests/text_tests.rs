use qr_link::{info_json, json_escape, record_json, u64_to_decimal};

#[test]
fn decimal_zero() {
    assert_eq!(u64_to_decimal(0), "0");
}

#[test]
fn decimal_small() {
    assert_eq!(u64_to_decimal(7), "7");
    assert_eq!(u64_to_decimal(42), "42");
    assert_eq!(u64_to_decimal(300), "300");
}

#[test]
fn decimal_largest() {
    assert_eq!(u64_to_decimal(u64::MAX), "18446744073709551615");
}

#[test]
fn escape_plain_text_unchanged() {
    assert_eq!(json_escape("https://openai.com"), "https://openai.com");
}

#[test]
fn escape_quote_and_backslash() {
    assert_eq!(json_escape("a\"b"), "a\\\"b");
    assert_eq!(json_escape("a\\b"), "a\\\\b");
}

#[test]
fn escape_control_characters() {
    assert_eq!(json_escape("a\nb"), "a\\u000ab");
    assert_eq!(json_escape("\t"), "\\u0009");
    assert_eq!(json_escape("\u{1f}"), "\\u001f");
}

#[test]
fn record_json_exact() {
    assert_eq!(
        record_json(1, "https://openai.com"),
        "{\"stored_id\":\"1\",\"stored_url\":\"https://openai.com\"}"
    );
}

#[test]
fn record_json_parses_as_json() {
    let body = record_json(12, "https://example.com/x?q=\"1\"");
    let value: serde_json::Value = serde_json::from_str(&body).unwrap();
    assert_eq!(value.get("stored_id").unwrap().as_str().unwrap(), "12");
    assert_eq!(
        value.get("stored_url").unwrap().as_str().unwrap(),
        "https://example.com/x?q=\"1\""
    );
}

#[test]
fn info_json_parses_and_names_operations() {
    let body = info_json();
    let value: serde_json::Value = serde_json::from_str(&body).unwrap();
    assert_eq!(value.get("openapi").unwrap().as_str().unwrap(), "3.0.0");
    assert_eq!(
        value
            .get("info")
            .unwrap()
            .get("title")
            .unwrap()
            .as_str()
            .unwrap(),
        "QR Link Shortener API"
    );
    let paths = value.get("paths").unwrap().as_object().unwrap();
    assert!(paths.contains_key("/{id}"));
    assert!(paths.contains_key("/{id}/qr"));
    assert!(paths.contains_key("/{id}/meta"));
    assert!(paths.contains_key("/"));
}
