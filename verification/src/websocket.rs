use vstd::prelude::*;

use crate::context::{Context, ContextModel};
use crate::error::ResponseError;
use crate::request::first_header_value;
use crate::response::{headers_with, Response, ResponseModel};
verus! {

/// The WebSocket accept token derived from one client key: the key's first
/// 24 bytes concatenated with the protocol's fixed GUID, hashed with SHA-1
/// and base64-encoded. A function of the key alone.
pub uninterp spec fn accept_token_of(key: Seq<char>) -> Seq<char>;

/// Relies on http_type::WebSocketFrame::generate_accept_key, which
/// computes exactly that derivation. The call panics on a key shorter
/// than 24 bytes; UTF-8 writes each character in at least one byte, so a
/// key of at least 24 characters is long enough.
#[verifier::external_body]
fn generate_accept_key(key: &str) -> (r: String)
    requires
        key@.len() >= 24,
    ensures
        r@ == accept_token_of(key@),
{
    http_type::WebSocketFrame::generate_accept_key(key)
}

/// Whether a client key is long enough to derive a token from: a
/// well-formed `Sec-WebSocket-Key` value is 24 characters of base64.
pub open spec fn key_usable(key: Seq<char>) -> bool {
    key.len() >= 24
}

/// The accept token for `key`, or nothing when the key is shorter than
/// the 24 bytes a well-formed `Sec-WebSocket-Key` value carries.
pub fn websocket_accept_token(key: &str) -> (r: Option<String>)
    ensures
        (match r {
            Some(t) => key_usable(key@) && t@ == accept_token_of(key@),
            None => !key_usable(key@),
        }),
{
    if key.unicode_len() >= 24 {
        Some(generate_accept_key(key))
    } else {
        None
    }
}

/// The response headers after the handshake sets its three headers, in
/// this order and exact case.
pub open spec fn handshake_headers(
    hs: Seq<(Seq<char>, Seq<char>)>,
    token: Seq<char>,
) -> Seq<(Seq<char>, Seq<char>)> {
    headers_with(
        headers_with(headers_with(hs, "Upgrade"@, "websocket"@), "Connection"@, "Upgrade"@),
        "Sec-WebSocket-Accept"@,
        token,
    )
}

impl Context {
    /// Performs the handshake computation of the upgrade: requires a
    /// usable `Sec-WebSocket-Key` request header, sets the three response
    /// headers with the derived accept token, and returns the 101 response
    /// to transmit, bypassing the HTTP-only send guard. The caller flips
    /// the connection into frame mode only after the transmission
    /// succeeds.
    pub fn handle_websocket(&mut self) -> (r: Result<Response, ResponseError>)
        ensures
            (match first_header_value(old(self)@.request.headers, "sec-websocket-key"@) {
                None => r matches Err(ResponseError::WebSocketHandShake) && final(self)@ == old(
                    self,
                )@,
                Some(k) => if !key_usable(k) {
                    r matches Err(ResponseError::WebSocketHandShake) && final(self)@ == old(self)@
                } else if old(self)@.stream is None {
                    r matches Err(ResponseError::NotFoundStream) && final(self)@ == (ContextModel {
                        response: (ResponseModel {
                            headers: handshake_headers(
                                old(self)@.response.headers,
                                accept_token_of(k),
                            ),
                            ..old(self)@.response
                        }),
                        ..old(self)@
                    })
                } else {
                    r matches Ok(resp) && final(self)@ == (ContextModel {
                        response: (ResponseModel {
                            status_code: 101int,
                            body: Seq::<u8>::empty(),
                            headers: handshake_headers(
                                old(self)@.response.headers,
                                accept_token_of(k),
                            ),
                            ..old(self)@.response
                        }),
                        ..old(self)@
                    }) && resp@ == final(self)@.response
                },
            }),
    {
        let key_opt: Option<String> = self.get_request_header("sec-websocket-key");
        match key_opt {
            None => Err(ResponseError::WebSocketHandShake),
            Some(key) => {
                if key.as_str().unicode_len() < 24 {
                    return Err(ResponseError::WebSocketHandShake);
                }
                let token: String = generate_accept_key(key.as_str());
                self.set_response_header("Upgrade", "websocket");
                self.set_response_header("Connection", "Upgrade");
                self.set_response_header("Sec-WebSocket-Accept", token.as_str());
                self.inner_send_response(101, Vec::new(), true)
            },
        }
    }
}

} // verus!
