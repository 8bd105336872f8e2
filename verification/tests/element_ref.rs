//! The rendered wire form of an element reference, and what parses back.

use thirtyfour::json::{parse_element_ref, render_element_ref};

const KEY: &str = "element-6066-11e4-a52e-4f735466cecf";

fn wire(body: &str) -> String {
    format!("{{\"{}\":\"{}\"}}", KEY, body)
}

#[test]
fn render_plain_id() {
    assert_eq!(
        render_element_ref("abc-123"),
        "{\"element-6066-11e4-a52e-4f735466cecf\":\"abc-123\"}"
    );
}

#[test]
fn render_empty_id() {
    assert_eq!(render_element_ref(""), wire(""));
}

#[test]
fn render_escapes_quote_and_backslash() {
    assert_eq!(render_element_ref("a\"b\\c"), wire("a\\\"b\\\\c"));
}

#[test]
fn render_escapes_short_controls() {
    assert_eq!(
        render_element_ref("a\u{8}\t\n\u{c}\rb"),
        wire("a\\b\\t\\n\\f\\rb")
    );
}

#[test]
fn render_escapes_other_controls_as_hex() {
    assert_eq!(render_element_ref("\u{1}\u{b}\u{1f}"), wire("\\u0001\\u000b\\u001f"));
}

#[test]
fn render_keeps_unicode_verbatim() {
    assert_eq!(render_element_ref("héllo→"), wire("héllo→"));
}

#[test]
fn render_matches_reference_serializer() {
    // The renderer must agree with the JSON serializer of the protocol
    // crates, byte for byte, on every id.
    for id in ["abc", "a\"b\\c", "a\u{8}\t\n\u{c}\r\u{1}\u{1f}z", "héllo→", ""] {
        let via_serde =
            serde_json::to_string(&serde_json::Value::String(id.to_string())).unwrap();
        let body = &via_serde[1..via_serde.len() - 1];
        assert_eq!(render_element_ref(id), wire(body));
    }
}

#[test]
fn parse_inverts_render() {
    for id in [
        "abc-123",
        "",
        "a\"b\\c",
        "a\u{8}\t\n\u{c}\rb",
        "\u{1}\u{b}\u{1f}",
        "héllo→世界",
    ] {
        assert_eq!(parse_element_ref(&render_element_ref(id)).as_deref(), Some(id));
    }
}

#[test]
fn parse_plain_text() {
    assert_eq!(
        parse_element_ref("{\"element-6066-11e4-a52e-4f735466cecf\":\"xyz\"}").as_deref(),
        Some("xyz")
    );
}

#[test]
fn parse_rejects_other_shapes() {
    assert_eq!(parse_element_ref(""), None);
    assert_eq!(parse_element_ref("{}"), None);
    assert_eq!(parse_element_ref("null"), None);
    assert_eq!(parse_element_ref("{\"element\":\"xyz\"}"), None);
    assert_eq!(parse_element_ref("{\"element-6066-11e4-a52e-4f735466cecf\":42}"), None);
    assert_eq!(parse_element_ref("{\"element-6066-11e4-a52e-4f735466cecf\":\"x\" }"), None);
}

#[test]
fn parse_rejects_broken_escapes() {
    assert_eq!(parse_element_ref(&wire("a\\xb")), None);
    assert_eq!(parse_element_ref(&wire("a\\")), None);
    assert_eq!(parse_element_ref(&wire("a\\u00")), None);
    assert_eq!(parse_element_ref(&wire("a\\u00zz")), None);
}

#[test]
fn parse_rejects_bare_specials() {
    assert_eq!(parse_element_ref(&wire("a\"b")), None);
    assert_eq!(parse_element_ref(&wire("a\nb")), None);
    assert_eq!(parse_element_ref(&wire("a\u{1}b")), None);
}

#[test]
fn parse_rejects_non_canonical_escapes() {
    // A character at or above 0x20 never uses the hex form.
    assert_eq!(parse_element_ref(&wire("\\u0041")), None);
    // A control character with a short form never uses the hex form.
    assert_eq!(parse_element_ref(&wire("\\u0009")), None);
    // Hex digits are lowercase.
    assert_eq!(parse_element_ref(&wire("\\u001B")), None);
}
