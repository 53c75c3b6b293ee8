use ws_chat::error::ChatError;
use ws_chat::handshake::{
    accept_from_encoded, accept_key, handshake_response, response_for, upgrade_response,
    websocket_key, KEY_PATTERN, WEBSOCKET_GUID,
};

const SAMPLE_REQUEST: &str = "GET /chat HTTP/1.1\r\nHost: localhost:8080\r\nUpgrade: websocket\r\nConnection: Upgrade\r\nSec-WebSocket-Key: dGhlIHNhbXBsZSBub25jZQ==\r\nSec-WebSocket-Version: 13\r\n\r\n";

const SAMPLE_RESPONSE: &str = "HTTP/1.1 101 Switching Protocols\r\nConnection: Upgrade\r\nUpgrade: websocket\r\nSec-WebSocket-Accept: s3pPLMBiTxaQ9kYGzzhZRbK+xOo=\r\n\r\n";

#[test]
fn accept_key_matches_the_rfc_example() {
    assert_eq!(accept_key("dGhlIHNhbXBsZSBub25jZQ=="), "s3pPLMBiTxaQ9kYGzzhZRbK+xOo=");
}

#[test]
fn accept_key_of_another_key() {
    // SHA-1 of "x3JJHMbDL1EzLkh9GBhXDw==258EAFA5-E914-47DA-95CA-C5AB0DC85B11"
    assert_eq!(accept_key("x3JJHMbDL1EzLkh9GBhXDw=="), "HSmrc0sMlYUkAGmm5OPpG2HaGWk=");
}

#[test]
fn accept_key_ends_in_one_equals_sign() {
    let accept = accept_key("");
    assert_eq!(accept.len(), 28);
    assert!(accept.ends_with('='));
    assert!(!accept.ends_with("=="));
}

#[test]
fn constants_are_those_of_the_protocol() {
    assert_eq!(WEBSOCKET_GUID, "258EAFA5-E914-47DA-95CA-C5AB0DC85B11");
    assert_eq!(KEY_PATTERN, "Sec-WebSocket-Key: (.*)");
}

#[test]
fn upgrade_response_is_byte_exact() {
    assert_eq!(upgrade_response("s3pPLMBiTxaQ9kYGzzhZRbK+xOo="), SAMPLE_RESPONSE);
    assert_eq!(
        upgrade_response(""),
        "HTTP/1.1 101 Switching Protocols\r\nConnection: Upgrade\r\nUpgrade: websocket\r\nSec-WebSocket-Accept: \r\n\r\n"
    );
}

#[test]
fn websocket_key_is_found_in_a_request() {
    assert_eq!(websocket_key(SAMPLE_REQUEST), Some("dGhlIHNhbXBsZSBub25jZQ==".to_string()));
}

#[test]
fn websocket_key_is_trimmed() {
    let request = "GET / HTTP/1.1\r\nSec-WebSocket-Key:   abc \t \r\nHost: x\r\n\r\n";
    assert_eq!(websocket_key(request), Some("abc".to_string()));
}

#[test]
fn websocket_key_runs_to_the_end_of_its_line_only() {
    let request = "Sec-WebSocket-Key: one two\nSec-WebSocket-Key: three\n";
    assert_eq!(websocket_key(request), Some("one two".to_string()));
}

#[test]
fn websocket_key_may_be_empty() {
    assert_eq!(websocket_key("Sec-WebSocket-Key: \r\n"), Some(String::new()));
}

#[test]
fn websocket_key_is_missing() {
    assert_eq!(websocket_key("GET / HTTP/1.1\r\nHost: x\r\n\r\n"), None);
    assert_eq!(websocket_key(""), None);
    // The header name is matched as it is written, and so is the blank.
    assert_eq!(websocket_key("sec-websocket-key: abc\r\n"), None);
    assert_eq!(websocket_key("Sec-WebSocket-Key:abc\r\n"), None);
}

#[test]
fn handshake_response_to_the_rfc_request() {
    assert_eq!(handshake_response(SAMPLE_REQUEST), Ok(SAMPLE_RESPONSE.to_string()));
}

#[test]
fn handshake_response_without_key_is_malformed() {
    assert_eq!(
        handshake_response("GET /chat HTTP/1.1\r\nHost: localhost\r\n\r\n"),
        Err(ChatError::HandshakeMalformed)
    );
}

#[test]
fn handshake_response_does_not_look_at_the_request_line() {
    let request = "POST /anything HTTP/0.9\r\nSec-WebSocket-Key: dGhlIHNhbXBsZSBub25jZQ==\r\n\r\n";
    assert_eq!(handshake_response(request), Ok(SAMPLE_RESPONSE.to_string()));
}

#[test]
fn accept_value_is_28_characters_long() {
    for key in ["", "a", "dGhlIHNhbXBsZSBub25jZQ==", "a key that is no base64 at all \u{e9}"] {
        assert_eq!(accept_key(key).chars().count(), 28);
    }
}

#[test]
fn accept_from_encoded_appends_one_equals_sign() {
    assert_eq!(accept_from_encoded("s3pPLMBiTxaQ9kYGzzhZRbK+xOo".to_string()), "s3pPLMBiTxaQ9kYGzzhZRbK+xOo=");
    assert_eq!(accept_from_encoded(String::new()), "=");
}

#[test]
fn response_for_an_accept_value_or_none() {
    assert_eq!(
        response_for(Some("s3pPLMBiTxaQ9kYGzzhZRbK+xOo=".to_string())),
        Ok(SAMPLE_RESPONSE.to_string())
    );
    assert_eq!(response_for(None), Err(ChatError::HandshakeMalformed));
}
