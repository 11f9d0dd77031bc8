use hyperlane::{
    websocket_accept_token, Connection, Context, HandshakeState, HttpVersion, Request,
    ResponseError, StreamInfo,
};

fn upgrade_request(key: Option<&str>) -> Request {
    let mut headers: Vec<(String, String)> = vec![
        ("Upgrade".to_string(), "websocket".to_string()),
        ("Connection".to_string(), "Upgrade".to_string()),
    ];
    if let Some(k) = key {
        headers.push(("Sec-WebSocket-Key".to_string(), k.to_string()));
    }
    Request {
        method: "GET".to_string(),
        host: "localhost".to_string(),
        version: HttpVersion::Http1_1,
        path: "/ws".to_string(),
        querys: Vec::new(),
        headers,
        body: Vec::new(),
    }
}

fn stream() -> StreamInfo {
    StreamInfo {
        host: "127.0.0.1".to_string(),
        port: 40001,
    }
}

#[test]
fn accept_token_canonical_vector() {
    let token = websocket_accept_token("dGhlIHNhbXBsZSBub25jZQ==").unwrap();
    assert_eq!(token, "s3pPLMBiTxaQ9kYGzzhZRbK+xOo=");
}

#[test]
fn accept_token_refuses_short_keys() {
    assert!(websocket_accept_token("short").is_none());
    assert!(websocket_accept_token("").is_none());
}

#[test]
fn handshake_sets_the_three_headers_and_101() {
    let req = upgrade_request(Some("dGhlIHNhbXBsZSBub25jZQ=="));
    let mut ctx = Context::from_stream_request(&stream(), &req);
    let resp = ctx.handle_websocket().unwrap();
    assert_eq!(resp.status_code, 101);
    assert!(resp.body.is_empty());
    let pairs: Vec<(String, String)> = resp.headers.clone();
    assert!(pairs.contains(&("Upgrade".to_string(), "websocket".to_string())));
    assert!(pairs.contains(&("Connection".to_string(), "Upgrade".to_string())));
    assert!(pairs.contains(&(
        "Sec-WebSocket-Accept".to_string(),
        "s3pPLMBiTxaQ9kYGzzhZRbK+xOo=".to_string()
    )));
}

#[test]
fn handshake_fails_without_key_header() {
    let req = upgrade_request(None);
    let mut ctx = Context::from_stream_request(&stream(), &req);
    assert!(matches!(
        ctx.handle_websocket(),
        Err(ResponseError::WebSocketHandShake)
    ));
}

#[test]
fn handshake_fails_on_short_key() {
    let req = upgrade_request(Some("tooShort"));
    let mut ctx = Context::from_stream_request(&stream(), &req);
    assert!(matches!(
        ctx.handle_websocket(),
        Err(ResponseError::WebSocketHandShake)
    ));
}

#[test]
fn handshake_transition_is_idempotent_once_negotiated() {
    let req = upgrade_request(Some("dGhlIHNhbXBsZSBub25jZQ=="));
    let mut conn = Connection::new();
    let mut ctx = Context::from_stream_request(&stream(), &req);
    conn.absorb_request(&req);
    assert!(conn.resolve_enable_websocket(&ctx));

    // First call: produces the 101 response to send.
    let first = conn.handshake_step(&mut ctx).unwrap();
    let resp = first.expect("the first transition must produce the 101 response");
    assert_eq!(resp.status_code, 101);
    conn.complete_handshake();
    assert_eq!(conn.handshake, HandshakeState::Negotiated);

    // Second and third calls: succeed, nothing to resend, state unchanged.
    let second = conn.handshake_step(&mut ctx).unwrap();
    assert!(second.is_none());
    let third = conn.handshake_step(&mut ctx).unwrap();
    assert!(third.is_none());
    assert_eq!(conn.handshake, HandshakeState::Negotiated);
}

#[test]
fn handshake_failure_leaves_connection_state() {
    let req = upgrade_request(None);
    let mut conn = Connection::new();
    let mut ctx = Context::from_stream_request(&stream(), &req);
    conn.absorb_request(&req);
    assert!(conn.resolve_enable_websocket(&ctx));
    assert!(conn.handshake_step(&mut ctx).is_err());
    assert_eq!(conn.handshake, HandshakeState::NotUpgraded);
    assert!(!conn.frame_mode());
}
