use hyperlane::{
    AttributeValue, Context, HttpVersion, Request, RequestError, ResponseError, StreamInfo,
};

fn request_with_headers(version: HttpVersion, headers: Vec<(String, String)>) -> Request {
    Request {
        method: "GET".to_string(),
        host: "localhost".to_string(),
        version,
        path: "/".to_string(),
        querys: Vec::new(),
        headers,
        body: Vec::new(),
    }
}

fn stream() -> StreamInfo {
    StreamInfo {
        host: "127.0.0.1".to_string(),
        port: 40000,
    }
}

#[test]
fn keep_alive_close_header_wins_over_version() {
    for version in [HttpVersion::Http1_0, HttpVersion::Http1_1, HttpVersion::Http2] {
        let req = request_with_headers(
            version,
            vec![("Connection".to_string(), "close".to_string())],
        );
        let ctx = Context::from_stream_request(&stream(), &req);
        assert!(!ctx.judge_enable_keep_alive());
        assert!(ctx.judge_unenable_keep_alive());
    }
}

#[test]
fn keep_alive_defaults_to_version_without_header() {
    let req11 = request_with_headers(HttpVersion::Http1_1, Vec::new());
    let ctx11 = Context::from_stream_request(&stream(), &req11);
    assert!(ctx11.judge_enable_keep_alive());

    let req10 = request_with_headers(HttpVersion::Http1_0, Vec::new());
    let ctx10 = Context::from_stream_request(&stream(), &req10);
    assert!(!ctx10.judge_enable_keep_alive());
}

#[test]
fn keep_alive_explicit_header_is_case_insensitive() {
    let req = request_with_headers(
        HttpVersion::Http1_0,
        vec![("CONNECTION".to_string(), "Keep-Alive".to_string())],
    );
    let ctx = Context::from_stream_request(&stream(), &req);
    assert!(ctx.judge_enable_keep_alive());
}

#[test]
fn keep_alive_unknown_header_value_falls_back_to_version() {
    let req = request_with_headers(
        HttpVersion::Http1_1,
        vec![("Connection".to_string(), "upgrade".to_string())],
    );
    let ctx = Context::from_stream_request(&stream(), &req);
    assert!(ctx.judge_enable_keep_alive());
}

#[test]
fn websocket_detection_is_case_insensitive() {
    let req = request_with_headers(
        HttpVersion::Http1_1,
        vec![("Upgrade".to_string(), "WebSocket".to_string())],
    );
    let ctx = Context::from_stream_request(&stream(), &req);
    assert!(ctx.judge_enable_websocket());
    assert!(ctx.inner_is_websocket());

    let plain = request_with_headers(HttpVersion::Http1_1, Vec::new());
    let plain_ctx = Context::from_stream_request(&stream(), &plain);
    assert!(!plain_ctx.judge_enable_websocket());
}

#[test]
fn attribute_store_set_get_remove_clear() {
    let req = request_with_headers(HttpVersion::Http1_1, Vec::new());
    let mut ctx = Context::from_stream_request(&stream(), &req);
    ctx.set_attribute("name", AttributeValue::Text("alice".to_string()));
    ctx.set_attribute("count", AttributeValue::Number(3));
    // Checked retrieval: the stored tag must match what the reader expects.
    match ctx.get_attribute("name") {
        Some(AttributeValue::Text(s)) => assert_eq!(s, "alice"),
        _ => panic!("expected a text attribute"),
    }
    match ctx.get_attribute("name") {
        Some(AttributeValue::Bytes(_)) => panic!("wrong tag must not appear"),
        Some(_) => {}
        None => panic!("attribute must be present"),
    }
    assert!(ctx.get_attribute("missing").is_none());
    // Overwrite under the same key.
    ctx.set_attribute("count", AttributeValue::Number(4));
    match ctx.get_attribute("count") {
        Some(AttributeValue::Number(n)) => assert_eq!(n, 4),
        _ => panic!("expected a number attribute"),
    }
    ctx.remove_attribute("count");
    assert!(ctx.get_attribute("count").is_none());
    ctx.clear_attribute();
    assert!(ctx.get_attribute("name").is_none());
}

#[test]
fn route_params_last_capture_shadows() {
    let req = request_with_headers(HttpVersion::Http1_1, Vec::new());
    let mut ctx = Context::from_stream_request(&stream(), &req);
    ctx.set_route_params(vec![
        ("id".to_string(), "1".to_string()),
        ("id".to_string(), "2".to_string()),
    ]);
    assert_eq!(ctx.get_route_param("id"), Some("2".to_string()));
    assert_eq!(ctx.get_route_param("other"), None);
    assert_eq!(ctx.get_route_params().len(), 2);
}

#[test]
fn send_requires_an_attached_stream() {
    let req = request_with_headers(HttpVersion::Http1_1, Vec::new());
    let mut ctx = Context::from_inner_context(hyperlane::InnerContext {
        stream: None,
        request: req,
        response: Default::default(),
        attribute: Vec::new(),
        route_params: Vec::new(),
        aborted: false,
    });
    assert!(matches!(
        ctx.send_response(200, b"hi".to_vec()),
        Err(ResponseError::NotFoundStream)
    ));
    assert!(matches!(ctx.close(), Err(ResponseError::NotFoundStream)));
    assert!(matches!(ctx.flush(), Err(ResponseError::NotFoundStream)));
}

#[test]
fn http_send_refused_on_websocket_exchange() {
    let req = request_with_headers(
        HttpVersion::Http1_1,
        vec![("Upgrade".to_string(), "websocket".to_string())],
    );
    let mut ctx = Context::from_stream_request(&stream(), &req);
    assert!(matches!(
        ctx.send_response(200, b"hi".to_vec()),
        Err(ResponseError::MethodNotSupported)
    ));
    assert!(matches!(ctx.send(), Err(ResponseError::MethodNotSupported)));
    // A bare body send stays available in WebSocket mode.
    assert!(ctx.send_response_body(b"frame".to_vec()).is_ok());
}

#[test]
fn send_response_returns_the_stored_response() {
    let req = request_with_headers(HttpVersion::Http1_1, Vec::new());
    let mut ctx = Context::from_stream_request(&stream(), &req);
    let resp = ctx.send_response(201, b"made".to_vec()).unwrap();
    assert_eq!(resp.status_code, 201);
    assert_eq!(resp.body, b"made".to_vec());
    assert_eq!(ctx.get_response_status_code(), 201);
    assert_eq!(ctx.get_response_body(), b"made".to_vec());
}

#[test]
fn begin_request_read_checks_abort_and_stream() {
    let req = request_with_headers(HttpVersion::Http1_1, Vec::new());
    let mut ctx = Context::from_stream_request(&stream(), &req);
    ctx.set_response_body(b"stale".to_vec());
    assert!(ctx.begin_request_read().is_ok());
    // The response body is reset at the start of each cycle.
    assert!(ctx.get_response_body().is_empty());

    ctx.aborted();
    assert!(matches!(
        ctx.begin_request_read(),
        Err(RequestError::RequestAborted)
    ));
    ctx.cancel_aborted();
    assert!(ctx.begin_request_read().is_ok());

    let mut detached = Context::from_inner_context(hyperlane::InnerContext {
        stream: None,
        request: request_with_headers(HttpVersion::Http1_1, Vec::new()),
        response: Default::default(),
        attribute: Vec::new(),
        route_params: Vec::new(),
        aborted: false,
    });
    assert!(matches!(
        detached.begin_request_read(),
        Err(RequestError::GetTcpStream)
    ));
}

#[test]
fn format_host_port_joins_with_colon() {
    assert_eq!(Context::format_host_port("0.0.0.0", &60000), "0.0.0.0:60000");
    assert_eq!(Context::format_host_port("localhost", &0), "localhost:0");
}

#[test]
fn socket_accessors_reflect_the_attached_peer() {
    let req = request_with_headers(HttpVersion::Http1_1, Vec::new());
    let ctx = Context::from_stream_request(&stream(), &req);
    assert_eq!(ctx.get_socket_host(), Some("127.0.0.1".to_string()));
    assert_eq!(ctx.get_socket_port(), Some(40000));
    let addr = ctx.get_socket_addr_or_default();
    assert_eq!(addr.host, "127.0.0.1");
    assert_eq!(addr.port, 40000);
}

#[test]
fn request_mutators_update_the_carried_request() {
    let req = request_with_headers(HttpVersion::Http1_1, Vec::new());
    let mut ctx = Context::from_stream_request(&stream(), &req);
    ctx.set_request_method("POST".to_string());
    ctx.set_request_host("example.test".to_string());
    ctx.set_request_path("/p".to_string());
    ctx.set_request_query("q", "1");
    ctx.set_request_query("q", "2");
    ctx.set_request_header("X-Tag", "v");
    ctx.set_request_body(b"payload".to_vec());
    assert_eq!(ctx.get_request_method(), "POST");
    assert_eq!(ctx.get_request_host(), "example.test");
    assert_eq!(ctx.get_request_path(), "/p");
    // Setting an existing query key overwrites it.
    assert_eq!(ctx.get_request_query("q"), Some("2".to_string()));
    assert_eq!(ctx.get_request_querys().len(), 1);
    assert_eq!(ctx.get_request_header("x-tag"), Some("v".to_string()));
    assert_eq!(ctx.get_request_body(), b"payload".to_vec());
}

#[test]
fn response_mutators_update_the_staged_response() {
    let req = request_with_headers(HttpVersion::Http1_1, Vec::new());
    let mut ctx = Context::from_stream_request(&stream(), &req);
    ctx.set_response_status_code(404);
    ctx.set_response_reason_phrase("Not Found".to_string());
    ctx.set_response_header("content-type", "text/plain");
    ctx.set_response_header("content-type", "application/json");
    ctx.set_response_body(b"{}".to_vec());
    assert_eq!(ctx.get_response_status_code(), 404);
    assert_eq!(ctx.get_response_reason_phrase(), "Not Found");
    // Response header names are exact: setting the same name overwrites.
    assert_eq!(
        ctx.get_response_header("content-type"),
        Some("application/json".to_string())
    );
    assert_eq!(ctx.get_response_headers().len(), 1);
    assert_eq!(ctx.get_response_body(), b"{}".to_vec());
}

#[test]
fn keep_alive_first_connection_header_decides() {
    let req = request_with_headers(
        HttpVersion::Http1_1,
        vec![
            ("Connection".to_string(), "close".to_string()),
            ("connection".to_string(), "keep-alive".to_string()),
        ],
    );
    let ctx = Context::from_stream_request(&stream(), &req);
    assert!(!ctx.judge_enable_keep_alive());
}

#[test]
fn request_header_lookup_is_case_insensitive_first_match() {
    let req = request_with_headers(
        HttpVersion::Http1_1,
        vec![
            ("X-Tag".to_string(), "one".to_string()),
            ("x-tag".to_string(), "two".to_string()),
        ],
    );
    let ctx = Context::from_stream_request(&stream(), &req);
    assert_eq!(ctx.get_request_header("x-tag"), Some("one".to_string()));
    assert_eq!(ctx.get_request_header("X-TAG"), Some("one".to_string()));
    assert_eq!(ctx.get_request_header("absent"), None);
}
