use vstd::prelude::*;

use crate::context::{Context, ContextModel};
use crate::error::ResponseError;
use crate::request::{
    default_request_model, first_header_value, has_upgrade_websocket, spec_keep_alive, Request,
    RequestModel,
};
use crate::response::{Response, ResponseModel};
use crate::websocket::{accept_token_of, handshake_headers, key_usable};

verus! {

/// The per-connection handshake state: an upgrade request has been
/// detected but the 101 response not yet sent while in flight; negotiated
/// is terminal for the connection's lifetime.
#[derive(Debug, Clone, Copy, PartialEq, Eq, Structural)]
pub enum HandshakeState {
    NotUpgraded,
    HandshakeInFlight,
    Negotiated,
}

/// The state one connection task carries across its read cycles.
#[derive(Debug)]
pub struct Connection {
    /// Whether this connection is a WebSocket upgrade: unknown until the
    /// first request, then fixed for the connection's lifetime.
    pub enable_websocket: Option<bool>,
    /// Where the upgrade handshake stands.
    pub handshake: HandshakeState,
    /// The carried request whose non-body fields persist across WebSocket
    /// frames.
    pub history_request: Request,
}

/// The mathematical content of one connection's state.
#[verifier::ext_equal]
pub struct ConnectionModel {
    pub enable_websocket: Option<bool>,
    pub handshake: HandshakeState,
    pub history_request: RequestModel,
}

impl View for Connection {
    type V = ConnectionModel;

    open spec fn view(&self) -> ConnectionModel {
        ConnectionModel {
            enable_websocket: self.enable_websocket,
            handshake: self.handshake,
            history_request: self.history_request@,
        }
    }
}

impl Connection {
    /// The state before the first read: upgrade unknown, not upgraded, an
    /// empty carried request.
    pub fn new() -> (r: Self)
        ensures
            r@ == (ConnectionModel {
                enable_websocket: None,
                handshake: HandshakeState::NotUpgraded,
                history_request: default_request_model(),
            }),
    {
        Connection {
            enable_websocket: None,
            handshake: HandshakeState::NotUpgraded,
            history_request: Request::default(),
        }
    }

    /// Whether the next read must decode a WebSocket frame instead of a
    /// fresh HTTP request.
    pub fn frame_mode(&self) -> (r: bool)
        ensures
            r == (self@.handshake == HandshakeState::Negotiated),
    {
        matches!(self.handshake, HandshakeState::Negotiated)
    }

    /// Whether this connection is known to be a WebSocket upgrade; false
    /// while unknown.
    pub fn is_websocket(&self) -> (r: bool)
        ensures
            r == (self@.enable_websocket == Some(true)),
    {
        match self.enable_websocket {
            Some(b) => b,
            None => false,
        }
    }

    /// Takes one just-read request unit into the connection: in frame
    /// mode only the body of the carried request is replaced; otherwise
    /// the fresh request is adopted as the new carried request. Returns
    /// the request the new cycle works on.
    pub fn absorb_request(&mut self, incoming: &Request) -> (r: Request)
        ensures
            old(self)@.handshake == HandshakeState::Negotiated ==> final(self)@ == (ConnectionModel {
                history_request: (RequestModel {
                    body: incoming@.body,
                    ..old(self)@.history_request
                }),
                ..old(self)@
            }),
            old(self)@.handshake != HandshakeState::Negotiated ==> final(self)@ == (ConnectionModel {
                history_request: incoming@,
                ..old(self)@
            }),
            r@ == final(self)@.history_request,
    {
        let ghost old_model = self@;
        if matches!(self.handshake, HandshakeState::Negotiated) {
            self.history_request.set_body(crate::request::copy_bytes(&incoming.body));
            proof {
                assert(self@ =~= (ConnectionModel {
                    history_request: (RequestModel {
                        body: incoming@.body,
                        ..old_model.history_request
                    }),
                    ..old_model
                }));
            }
        } else {
            self.history_request = incoming.duplicate();
            proof {
                assert(self@ =~= (ConnectionModel {
                    history_request: incoming@,
                    ..old_model
                }));
            }
        }
        self.history_request.duplicate()
    }

    /// Resolves, exactly once per connection, whether it is a WebSocket
    /// upgrade: the first call fixes the answer from the request's
    /// headers, later calls return the cached answer.
    pub fn resolve_enable_websocket(&mut self, ctx: &Context) -> (r: bool)
        ensures
            (match old(self)@.enable_websocket {
                Some(b) => r == b && final(self)@ == old(self)@,
                None => r == has_upgrade_websocket(ctx@.request.headers) && final(self)@
                    == (ConnectionModel { enable_websocket: Some(r), ..old(self)@ }),
            }),
    {
        let ghost old_model = self@;
        match self.enable_websocket {
            Some(b) => b,
            None => {
                let b: bool = ctx.judge_enable_websocket();
                self.enable_websocket = Some(b);
                proof {
                    assert(self@ =~= (ConnectionModel {
                        enable_websocket: Some(b),
                        ..old_model
                    }));
                }
                b
            },
        }
    }

    /// One call of the handshake transition. On a negotiated connection
    /// it is a no-op that succeeds with nothing to send — so calling it
    /// any number of times never resends the 101 response. Otherwise it
    /// runs the handshake computation, and succeeds exactly when the
    /// request carries a usable `Sec-WebSocket-Key` and a socket is
    /// attached: the context then stages the 101 response with the three
    /// upgrade headers and the derived accept token, that response is
    /// returned for transmission, and the handshake is in flight until
    /// [`Self::complete_handshake`] confirms the transmission. A missing
    /// or unusable key fails with a handshake error and changes nothing; a
    /// missing socket fails after staging only the headers. On failure the
    /// connection state is unchanged and the caller closes the connection.
    pub fn handshake_step(&mut self, ctx: &mut Context) -> (r: Result<
        Option<Response>,
        ResponseError,
    >)
        ensures
            old(self)@.handshake == HandshakeState::Negotiated ==> ({
                &&& r matches Ok(resp) && resp is None
                &&& final(self)@ == old(self)@
                &&& final(ctx)@ == old(ctx)@
            }),
            old(self)@.handshake != HandshakeState::Negotiated ==> (match first_header_value(
                old(ctx)@.request.headers,
                "sec-websocket-key"@,
            ) {
                None => r matches Err(ResponseError::WebSocketHandShake) && final(self)@ == old(
                    self,
                )@ && final(ctx)@ == old(ctx)@,
                Some(k) => if !key_usable(k) {
                    r matches Err(ResponseError::WebSocketHandShake) && final(self)@ == old(self)@
                        && final(ctx)@ == old(ctx)@
                } else if old(ctx)@.stream is None {
                    r matches Err(ResponseError::NotFoundStream) && final(self)@ == old(self)@
                        && final(ctx)@ == (ContextModel {
                        response: (ResponseModel {
                            headers: handshake_headers(
                                old(ctx)@.response.headers,
                                accept_token_of(k),
                            ),
                            ..old(ctx)@.response
                        }),
                        ..old(ctx)@
                    })
                } else {
                    r matches Ok(Some(response)) && final(self)@ == (ConnectionModel {
                        handshake: HandshakeState::HandshakeInFlight,
                        ..old(self)@
                    }) && final(ctx)@ == (ContextModel {
                        response: (ResponseModel {
                            status_code: 101int,
                            body: Seq::<u8>::empty(),
                            headers: handshake_headers(
                                old(ctx)@.response.headers,
                                accept_token_of(k),
                            ),
                            ..old(ctx)@.response
                        }),
                        ..old(ctx)@
                    }) && response@ == final(ctx)@.response
                },
            }),
    {
        if matches!(self.handshake, HandshakeState::Negotiated) {
            return Ok(None);
        }
        match ctx.handle_websocket() {
            Ok(response) => {
                let ghost old_model = self@;
                self.handshake = HandshakeState::HandshakeInFlight;
                proof {
                    assert(self@ =~= (ConnectionModel {
                        handshake: HandshakeState::HandshakeInFlight,
                        ..old_model
                    }));
                }
                Ok(Some(response))
            },
            Err(e) => Err(e),
        }
    }

    /// Confirms that the 101 response went out: the connection is
    /// negotiated from here on, and every further read decodes frames.
    pub fn complete_handshake(&mut self)
        requires
            old(self)@.handshake == HandshakeState::HandshakeInFlight,
        ensures
            final(self)@ == (ConnectionModel {
                handshake: HandshakeState::Negotiated,
                ..old(self)@
            }),
    {
        let ghost old_model = self@;
        self.handshake = HandshakeState::Negotiated;
        proof {
            assert(self@ =~= (ConnectionModel {
                handshake: HandshakeState::Negotiated,
                ..old_model
            }));
        }
    }

    /// The end-of-cycle decision: the connection closes when it is not a
    /// WebSocket connection and the request's keep-alive policy says
    /// close.
    pub fn should_close(&self, ctx: &Context) -> (r: bool)
        ensures
            r == (!spec_keep_alive(ctx@.request) && self@.enable_websocket != Some(true)),
    {
        ctx.judge_unenable_keep_alive() && !self.is_websocket()
    }
}

} // verus!
