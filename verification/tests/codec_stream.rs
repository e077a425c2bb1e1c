use base64::Engine;
use dredger::codec::{decode_file_content, strip_newlines};
use dredger::stream::{assemble_body, assemble_stream};
use dredger::tree::RepoContent;

fn single_file(content: Option<&str>) -> RepoContent {
    RepoContent {
        name: "f".to_string(),
        path: "f".to_string(),
        kind: "file".to_string(),
        content: content.map(|c| c.to_string()),
    }
}

#[test]
fn strip_newlines_removes_embedded_breaks() {
    assert_eq!(strip_newlines("abc\ndef\n"), "abcdef");
    assert_eq!(strip_newlines(""), "");
    assert_eq!(strip_newlines("\n\n"), "");
}

#[test]
fn decode_round_trips_wrapped_base64() {
    // Decoding the base64 content of a fetched file, after stripping the
    // embedded newlines the API wraps lines with, reproduces the original
    // text byte for byte.
    let text = "fn main() { println!(\"hi\"); }\nsecond line";
    let encoded = base64::engine::general_purpose::STANDARD.encode(text.as_bytes());
    let mut wrapped = String::new();
    for (i, c) in encoded.chars().enumerate() {
        if i > 0 && i % 10 == 0 {
            wrapped.push('\n');
        }
        wrapped.push(c);
    }
    let decoded = decode_file_content(&single_file(Some(&wrapped)));
    assert_eq!(decoded.as_deref(), Some(text));
}

#[test]
fn decode_without_content_field_yields_nothing() {
    assert!(decode_file_content(&single_file(None)).is_none());
}

#[test]
fn decode_invalid_base64_yields_nothing() {
    assert!(decode_file_content(&single_file(Some("!!!not-base64!!!"))).is_none());
}

#[test]
fn decode_invalid_utf8_is_lossy_not_fatal() {
    let encoded = base64::engine::general_purpose::STANDARD.encode([0xffu8, 0x68, 0x69]);
    let decoded = decode_file_content(&single_file(Some(&encoded))).unwrap();
    assert_eq!(decoded, "\u{FFFD}hi");
}

#[test]
fn stream_concatenates_response_fragments() {
    // The stream {"response":"//! "} then {"response":"hi"} yields the
    // concatenated completion "//! hi".
    let lines = vec![
        "{\"response\":\"//! \"}".to_string(),
        "{\"response\":\"hi\"}".to_string(),
    ];
    assert_eq!(assemble_stream(&lines), "//! hi");
    assert_eq!(
        assemble_body("{\"response\":\"//! \"}\n{\"response\":\"hi\"}\n"),
        "//! hi"
    );
}

#[test]
fn stream_skips_framing_noise() {
    let body = "{\"response\":\"a\"}\nnot json at all\n{\"done\":true}\n{\"response\":7}\n{\"response\":\"b\"}";
    assert_eq!(assemble_body(body), "ab");
}

#[test]
fn stream_of_noise_only_is_empty() {
    assert_eq!(assemble_body(""), "");
    assert_eq!(assemble_body("garbage"), "");
}
