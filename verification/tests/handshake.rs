use ws_engine::handshake::{accept_key, handshake_response, response_with_accept};

#[test]
fn accept_key_of_the_sample_nonce() {
    assert_eq!(accept_key("dGhlIHNhbXBsZSBub25jZQ=="), "s3pPLMBiTxaQ9kYGzzhZRbK+xOo=");
}

#[test]
fn accept_key_of_the_empty_key() {
    // base64(SHA-1("258EAFA5-E914-47DA-95CA-C5AB0DC85B11"))
    assert_eq!(accept_key(""), "Kfh9QIsMVZcl6xEPYxPHzW8SZ8w=");
}

#[test]
fn response_without_a_key_has_the_three_fixed_lines() {
    let expected = "HTTP/1.1 101 Switching Protocols\r\nUpgrade: websocket\r\nConnection: Upgrade\r\n\r\n";
    assert_eq!(handshake_response(None), expected.as_bytes());
    assert_eq!(response_with_accept(None), expected.as_bytes());
}

#[test]
fn response_with_a_key_carries_the_accept_header() {
    let expected = "HTTP/1.1 101 Switching Protocols\r\nUpgrade: websocket\r\nConnection: Upgrade\r\nSec-Websocket-Accept: s3pPLMBiTxaQ9kYGzzhZRbK+xOo=\r\n\r\n";
    assert_eq!(
        handshake_response(Some("dGhlIHNhbXBsZSBub25jZQ==".to_string())),
        expected.as_bytes()
    );
}

#[test]
fn response_with_accept_writes_the_token_as_given() {
    let expected = "HTTP/1.1 101 Switching Protocols\r\nUpgrade: websocket\r\nConnection: Upgrade\r\nSec-Websocket-Accept: token\r\n\r\n";
    assert_eq!(response_with_accept(Some("token".to_string())), expected.as_bytes());
}
