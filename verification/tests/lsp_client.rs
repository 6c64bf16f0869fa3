use pika::lsp::framing::{format_lsp_message, parse_content_length};
use std::sync::atomic::{AtomicI64, Ordering};

// --- Unit tests for message formatting and header parsing ---

#[test]
fn test_format_lsp_message_simple() {
    let body = b"hello";
    let msg = format_lsp_message(body);
    let msg_str = String::from_utf8(msg).unwrap();
    assert!(msg_str.starts_with("Content-Length: 5\r\n\r\n"));
    assert!(msg_str.ends_with("hello"));
}

#[test]
fn test_format_lsp_message_empty_body() {
    let body = b"";
    let msg = format_lsp_message(body);
    let msg_str = String::from_utf8(msg).unwrap();
    assert!(msg_str.starts_with("Content-Length: 0\r\n\r\n"));
}


#[test]
fn test_parse_content_length_valid() {
    let header = "Content-Length: 42\r\nContent-Type: application/json\r\n";
    assert_eq!(parse_content_length(header), Some(42));
}

#[test]
fn test_parse_content_length_no_header() {
    let header = "Content-Type: application/json\r\n";
    assert_eq!(parse_content_length(header), None);
}

#[test]
fn test_parse_content_length_empty() {
    assert_eq!(parse_content_length(""), None);
}

#[test]
fn test_parse_content_length_with_whitespace() {
    let header = "Content-Length:  128  \r\n";
    assert_eq!(parse_content_length(header), Some(128));
}

#[test]
fn test_parse_content_length_invalid_value() {
    let header = "Content-Length: not_a_number\r\n";
    assert_eq!(parse_content_length(header), None);
}

// --- Tests for read_content_length async helper ---


// --- Tests for dispatch_notification ---


// --- Tests for JsonRpcRequest/Response serialization in context ---


// --- Tests for full message read/parse round-trip ---


#[test]
fn test_atomic_id_generation() {
    let counter = AtomicI64::new(1);
    let id1 = counter.fetch_add(1, Ordering::SeqCst);
    let id2 = counter.fetch_add(1, Ordering::SeqCst);
    let id3 = counter.fetch_add(1, Ordering::SeqCst);
    assert_eq!(id1, 1);
    assert_eq!(id2, 2);
    assert_eq!(id3, 3);
}

#[test]
fn test_format_lsp_message_json_body() {
    let value: serde_json::Value =
        serde_json::from_str(r#"{"jsonrpc":"2.0","id":1,"method":"initialize"}"#).unwrap();
    let body = serde_json::to_vec(&value).unwrap();
    let msg = format_lsp_message(&body);
    let msg_str = String::from_utf8(msg).unwrap();
    let expected_header = format!("Content-Length: {}\r\n\r\n", body.len());
    assert!(msg_str.starts_with(&expected_header));
}

#[test]
fn framed_header_parses_back_to_body_length() {
    for len in [0usize, 7, 10, 1234] {
        let body = vec![b'x'; len];
        let msg = format_lsp_message(&body);
        let text = String::from_utf8(msg).unwrap();
        let end = text.find("\r\n\r\n").unwrap() + 4;
        assert_eq!(parse_content_length(&text[..end]), Some(len));
    }
}
