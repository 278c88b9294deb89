//! The JSON body: field order, null for absent fields, and escaping.

use allowlist::{render_summary, RequestSummary};

fn summary(
    request_address: &str,
    parsed_address: Option<&str>,
    is_allowed: Option<bool>,
    message: &str,
) -> RequestSummary {
    RequestSummary {
        request_address: request_address.to_string(),
        parsed_address: parsed_address.map(|s| s.to_string()),
        is_allowed,
        message: message.to_string(),
    }
}

#[test]
fn renders_all_fields_present() {
    let s = summary("0x1", Some("0x1"), Some(true), "Found in allowlist");
    assert_eq!(
        render_summary(&s),
        "{\"request_address\":\"0x1\",\"parsed_address\":\"0x1\",\"is_allowed\":true,\"message\":\"Found in allowlist\"}"
    );
}

#[test]
fn renders_null_for_absent_fields() {
    let s = summary("zzz", None, None, "Could not parse address");
    assert_eq!(
        render_summary(&s),
        "{\"request_address\":\"zzz\",\"parsed_address\":null,\"is_allowed\":null,\"message\":\"Could not parse address\"}"
    );
}

#[test]
fn escapes_quotes_and_backslashes() {
    let s = summary("a\"b\\c", None, None, "");
    assert_eq!(
        render_summary(&s),
        "{\"request_address\":\"a\\\"b\\\\c\",\"parsed_address\":null,\"is_allowed\":null,\"message\":\"\"}"
    );
}

#[test]
fn escapes_control_characters() {
    let s = summary("a\nb\tc\u{1}", None, None, "");
    assert_eq!(
        render_summary(&s),
        "{\"request_address\":\"a\\u000ab\\u0009c\\u0001\",\"parsed_address\":null,\"is_allowed\":null,\"message\":\"\"}"
    );
}

#[test]
fn passes_other_unicode_through() {
    let s = summary("a\u{00a7}b", None, Some(false), "ok");
    assert_eq!(
        render_summary(&s),
        "{\"request_address\":\"a\u{00a7}b\",\"parsed_address\":null,\"is_allowed\":false,\"message\":\"ok\"}"
    );
}
