use hyperlane::{
    AttributeValue, Connection, Context, HttpVersion, Request, RouteError, Server, StreamInfo,
};

type Handler = fn(Context) -> Context;

fn stream() -> StreamInfo {
    StreamInfo {
        host: "127.0.0.1".to_string(),
        port: 40002,
    }
}

fn get_request(path: &str, version: HttpVersion, headers: Vec<(String, String)>) -> Request {
    Request {
        method: "GET".to_string(),
        host: "localhost".to_string(),
        version,
        path: path.to_string(),
        querys: Vec::new(),
        headers,
        body: Vec::new(),
    }
}

fn bump(ctx: &mut Context, key: &str) {
    let next = match ctx.get_attribute(key) {
        Some(AttributeValue::Number(n)) => n + 1,
        _ => 1,
    };
    ctx.set_attribute(key, AttributeValue::Number(next));
}

fn count_of(ctx: &Context, key: &str) -> i64 {
    match ctx.get_attribute(key) {
        Some(AttributeValue::Number(n)) => n,
        _ => 0,
    }
}

fn pre_middleware(mut ctx: Context) -> Context {
    bump(&mut ctx, "pre-runs");
    ctx.set_response_header("server", "hyperlane");
    ctx
}

fn post_middleware(mut ctx: Context) -> Context {
    bump(&mut ctx, "post-runs");
    ctx
}

fn root_handler(mut ctx: Context) -> Context {
    ctx.set_response_status_code(200);
    ctx.set_response_body(b"Hello => /".to_vec());
    ctx
}

fn ws_handler(mut ctx: Context) -> Context {
    let body = ctx.get_request_body();
    ctx.set_response_body(body);
    ctx
}

#[test]
fn builders_store_the_configuration() {
    let mut server: Server<Handler> = Server::new();
    server.host("0.0.0.0");
    server.port(60000);
    server.log_dir("./logs");
    server.log_size(1024);
    server.log_interval_millis(360);
    server.websocket_buffer_size(4096);
    server.enable_inner_print();
    server.disable_inner_log();
    assert_eq!(server.cfg.host, "0.0.0.0");
    assert_eq!(server.cfg.port, 60000);
    assert_eq!(server.cfg.log_dir, "./logs");
    assert_eq!(server.cfg.log_size, 1024);
    assert_eq!(server.cfg.interval_millis, 360);
    assert_eq!(server.cfg.websocket_buffer_size, 4096);
    assert!(server.cfg.inner_print);
    assert!(!server.cfg.inner_log);
    // A zero buffer size asks for the default.
    server.websocket_buffer_size(0);
    assert_eq!(server.cfg.websocket_buffer_size, 4096);
}

#[test]
fn server_route_rejects_duplicates() {
    let mut server: Server<Handler> = Server::new();
    assert!(server.route("/t/:a", root_handler).is_ok());
    assert!(matches!(
        server.route("/t/:b", root_handler),
        Err(RouteError::DuplicatePattern(_))
    ));
}

#[test]
fn full_cycle_runs_middleware_and_handler_once() {
    let mut server: Server<Handler> = Server::new();
    server.route("/", root_handler).unwrap();
    server.request_middleware(pre_middleware);
    server.response_middleware(post_middleware);

    let req = get_request("/", HttpVersion::Http1_1, Vec::new());
    let mut conn = Connection::new();
    let effective = conn.absorb_request(&req);
    let ctx = Context::from_stream_request(&stream(), &effective);
    assert!(!conn.resolve_enable_websocket(&ctx));

    let out = server.run_cycle(ctx);
    assert_eq!(out.get_response_status_code(), 200);
    assert_eq!(out.get_response_body(), b"Hello => /".to_vec());
    assert_eq!(count_of(&out, "pre-runs"), 1);
    assert_eq!(count_of(&out, "post-runs"), 1);
    assert_eq!(
        out.get_response_header("server"),
        Some("hyperlane".to_string())
    );
    // Version 1.1 with no Connection header: the loop goes on.
    assert!(!conn.should_close(&out));
}

#[test]
fn cycle_without_matching_route_leaves_default_response() {
    let mut server: Server<Handler> = Server::new();
    server.route("/", root_handler).unwrap();
    server.request_middleware(pre_middleware);
    server.response_middleware(post_middleware);

    let req = get_request("/absent", HttpVersion::Http1_0, Vec::new());
    let conn = Connection::new();
    let ctx = Context::from_stream_request(&stream(), &req);
    let out = server.run_cycle(ctx);
    // No built-in fallback: the default response state shows through.
    assert_eq!(out.get_response_status_code(), 200);
    assert!(out.get_response_body().is_empty());
    assert_eq!(count_of(&out, "pre-runs"), 1);
    assert_eq!(count_of(&out, "post-runs"), 1);
    // Version 1.0 without keep-alive: the connection closes.
    assert!(conn.should_close(&out));
}

#[test]
fn handler_sees_route_parameters() {
    fn param_handler(mut ctx: Context) -> Context {
        let text = ctx.get_route_param("text").unwrap_or_default();
        ctx.set_response_body(text.into_bytes());
        ctx
    }
    let mut server: Server<Handler> = Server::new();
    server.route("/test/:text", param_handler).unwrap();
    let req = get_request("/test/hello", HttpVersion::Http1_1, Vec::new());
    let ctx = Context::from_stream_request(&stream(), &req);
    let out = server.run_cycle(ctx);
    assert_eq!(out.get_response_body(), b"hello".to_vec());
}

#[test]
fn websocket_connection_upgrade_then_frame() {
    let mut server: Server<Handler> = Server::new();
    server.route("/ws", ws_handler).unwrap();

    let upgrade = get_request(
        "/ws",
        HttpVersion::Http1_1,
        vec![
            ("Upgrade".to_string(), "websocket".to_string()),
            ("Connection".to_string(), "Upgrade".to_string()),
            (
                "Sec-WebSocket-Key".to_string(),
                "dGhlIHNhbXBsZSBub25jZQ==".to_string(),
            ),
        ],
    );

    let mut conn = Connection::new();
    // Cycle one: the upgrade request.
    assert!(!conn.frame_mode());
    let effective = conn.absorb_request(&upgrade);
    let mut ctx = Context::from_stream_request(&stream(), &effective);
    assert!(conn.resolve_enable_websocket(&ctx));
    let resp = conn
        .handshake_step(&mut ctx)
        .unwrap()
        .expect("first transition sends the 101");
    assert_eq!(resp.status_code, 101);
    conn.complete_handshake();

    // Cycle two: a binary frame with payload X; only the body changes,
    // the carried request keeps the upgrade request's other fields.
    assert!(conn.frame_mode());
    let mut frame_update = Request::default();
    frame_update.body = b"X".to_vec();
    let effective2 = conn.absorb_request(&frame_update);
    assert_eq!(effective2.path, "/ws");
    assert_eq!(effective2.body, b"X".to_vec());
    let mut ctx2 = Context::from_stream_request(&stream(), &effective2);
    // The handshake steps never run again for this connection.
    assert!(conn.handshake_step(&mut ctx2).unwrap().is_none());
    let out = server.run_cycle(ctx2);
    assert_eq!(out.get_response_body(), b"X".to_vec());
    // A WebSocket connection never closes for keep-alive reasons.
    assert!(!conn.should_close(&out));
}
