use vstd::prelude::*;

verus! {

/// Registration-time failure of the route table.
#[derive(Debug)]
pub enum RouteError {
    /// A structurally identical pattern is already registered; carries the
    /// path string whose registration was refused.
    DuplicatePattern(String),
}

impl RouteError {
    /// The human-readable description the framework reports for this error.
    pub fn error_message(&self) -> (r: String)
        ensures
            (match self {
                RouteError::DuplicatePattern(p) => r@ == "Route pattern already exists: "@ + p@,
            }),
    {
        match self {
            RouteError::DuplicatePattern(p) => {
                let mut s = "Route pattern already exists: ".to_owned();
                s.append(p.as_str());
                s
            },
        }
    }
}

/// Failure of an operation that writes to, or otherwise needs, the
/// connection's response side.
#[derive(Debug, PartialEq, Eq, Structural)]
pub enum ResponseError {
    /// The context has no attached stream.
    NotFoundStream,
    /// An HTTP-framing method was called while the exchange is in
    /// WebSocket mode.
    MethodNotSupported,
    /// The WebSocket handshake could not be performed (the request lacks a
    /// usable `Sec-WebSocket-Key` header).
    WebSocketHandShake,
}

/// Failure of reading the next request unit off the connection.
#[derive(Debug, PartialEq, Eq, Structural)]
pub enum RequestError {
    /// The context carries a cooperative cancellation signal.
    RequestAborted,
    /// The context has no attached stream to read from.
    GetTcpStream,
    /// The bytes on the wire did not form a request unit.
    InvalidHttpRequest,
}

/// Failure at the server boundary.
#[derive(Debug)]
pub enum ServerError {
    /// Binding the listening socket failed; carries the reported reason.
    TcpBindError(String),
    /// Reading from an accepted connection failed; carries the reported
    /// reason.
    HttpReadError(String),
    /// The next request unit could not be read or parsed.
    InvalidHttpRequest(RequestError),
    /// Any other failure.
    Unknown,
}

} // verus!
