use vstd::prelude::*;

use crate::error::{RequestError, ResponseError};
use crate::request::{copy_bytes, copy_pairs, default_request_model, has_upgrade_websocket, spec_keep_alive, Request, RequestModel};
use crate::response::{default_response_model, Response, ResponseModel};
use crate::table::{assoc_get, assoc_index, assoc_index_from, assoc_remove, assoc_set};
use crate::text::{dec_seq, str_eq, usize_to_string};

verus! {

/// What the framework knows of the peer of an attached socket; the socket
/// itself stays with the surrounding runtime.
#[derive(Debug)]
pub struct StreamInfo {
    pub host: String,
    pub port: u16,
}

/// The mathematical content of a stream handle.
#[verifier::ext_equal]
pub struct StreamModel {
    pub host: Seq<char>,
    pub port: u16,
}

impl View for StreamInfo {
    type V = StreamModel;

    open spec fn view(&self) -> StreamModel {
        StreamModel { host: self.host@, port: self.port }
    }
}

impl DeepView for StreamInfo {
    type V = StreamModel;

    open spec fn deep_view(&self) -> StreamModel {
        self@
    }
}

impl StreamInfo {
    /// An exact copy.
    pub fn duplicate(&self) -> (r: StreamInfo)
        ensures
            r@ == self@,
    {
        StreamInfo { host: self.host.clone(), port: self.port }
    }
}

/// One entry of the per-request attribute store: a tagged plain value, the
/// checked retrieval of which stands in for a checked downcast.
#[derive(Debug)]
pub enum AttributeValue {
    Text(String),
    Bytes(Vec<u8>),
    Number(i64),
    Flag(bool),
}

/// The mathematical content of one attribute value.
pub enum AttributeModel {
    Text(Seq<char>),
    Bytes(Seq<u8>),
    Number(i64),
    Flag(bool),
}

impl View for AttributeValue {
    type V = AttributeModel;

    open spec fn view(&self) -> AttributeModel {
        match self {
            AttributeValue::Text(s) => AttributeModel::Text(s@),
            AttributeValue::Bytes(b) => AttributeModel::Bytes(b@),
            AttributeValue::Number(n) => AttributeModel::Number(*n),
            AttributeValue::Flag(b) => AttributeModel::Flag(*b),
        }
    }
}

impl DeepView for AttributeValue {
    type V = AttributeModel;

    open spec fn deep_view(&self) -> AttributeModel {
        self@
    }
}

impl AttributeValue {
    /// An exact copy.
    pub fn duplicate(&self) -> (r: AttributeValue)
        ensures
            r@ == self@,
    {
        match self {
            AttributeValue::Text(s) => AttributeValue::Text(s.clone()),
            AttributeValue::Bytes(b) => AttributeValue::Bytes(copy_bytes(b)),
            AttributeValue::Number(n) => AttributeValue::Number(*n),
            AttributeValue::Flag(b) => AttributeValue::Flag(*b),
        }
    }
}

/// The mutable record of one request/response exchange plus its ambient
/// connection data.
#[derive(Debug)]
pub struct InnerContext {
    /// Peer data of the attached socket; absent before a connection is
    /// attached.
    pub stream: Option<StreamInfo>,
    pub request: Request,
    pub response: Response,
    /// String-keyed tagged values that middleware pass to later handlers.
    pub attribute: Vec<(String, AttributeValue)>,
    /// Parameters extracted by the last route resolution.
    pub route_params: Vec<(String, String)>,
    /// The cooperative cancellation signal.
    pub aborted: bool,
}

/// The mathematical content of one exchange record.
#[verifier::ext_equal]
pub struct ContextModel {
    pub stream: Option<StreamModel>,
    pub request: RequestModel,
    pub response: ResponseModel,
    pub attribute: Seq<(Seq<char>, AttributeModel)>,
    pub route_params: Seq<(Seq<char>, Seq<char>)>,
    pub aborted: bool,
}

impl View for InnerContext {
    type V = ContextModel;

    open spec fn view(&self) -> ContextModel {
        ContextModel {
            stream: self.stream.deep_view(),
            request: self.request@,
            response: self.response@,
            attribute: self.attribute.deep_view(),
            route_params: self.route_params.deep_view(),
            aborted: self.aborted,
        }
    }
}

impl Default for InnerContext {
    /// The record before a connection is attached: no stream, default
    /// request and response, no attributes, no parameters, not aborted.
    fn default() -> (r: Self)
        ensures
            r@ == (ContextModel {
                stream: None,
                request: default_request_model(),
                response: default_response_model(),
                attribute: Seq::<(Seq<char>, AttributeModel)>::empty(),
                route_params: Seq::<(Seq<char>, Seq<char>)>::empty(),
                aborted: false,
            }),
    {
        let r = InnerContext {
            stream: None,
            request: Request::default(),
            response: Response::default(),
            attribute: Vec::new(),
            route_params: Vec::new(),
            aborted: false,
        };
        proof {
            assert(r.attribute.deep_view() =~= Seq::<(Seq<char>, AttributeModel)>::empty());
            assert(r.route_params.deep_view() =~= Seq::<(Seq<char>, Seq<char>)>::empty());
            assert(r@ =~= (ContextModel {
                stream: None,
                request: default_request_model(),
                response: default_response_model(),
                attribute: Seq::<(Seq<char>, AttributeModel)>::empty(),
                route_params: Seq::<(Seq<char>, Seq<char>)>::empty(),
                aborted: false,
            }));
        }
        r
    }
}

/// The shared handle to one exchange record. The exclusive-access guard
/// that serializes concurrent use lives with the surrounding runtime; the
/// verified record itself is this plain value.
#[derive(Debug)]
pub struct Context(pub InnerContext);

impl View for Context {
    type V = ContextModel;

    open spec fn view(&self) -> ContextModel {
        self.0@
    }
}

impl Context {
    /// Wraps a fully built record.
    pub fn from_inner_context(ctx: InnerContext) -> (r: Self)
        ensures
            r@ == ctx@,
    {
        Context(ctx)
    }

    /// A fresh context bound to a socket and a just-read request.
    pub fn from_stream_request(stream: &StreamInfo, request: &Request) -> (r: Self)
        ensures
            r@ == (ContextModel {
                stream: Some(stream@),
                request: request@,
                response: default_response_model(),
                attribute: Seq::<(Seq<char>, AttributeModel)>::empty(),
                route_params: Seq::<(Seq<char>, Seq<char>)>::empty(),
                aborted: false,
            }),
    {
        let mut inner = InnerContext::default();
        inner.stream = Some(stream.duplicate());
        inner.request = request.duplicate();
        let r = Context(inner);
        proof {
            assert(r@ =~= (ContextModel {
                stream: Some(stream@),
                request: request@,
                response: default_response_model(),
                attribute: Seq::<(Seq<char>, AttributeModel)>::empty(),
                route_params: Seq::<(Seq<char>, Seq<char>)>::empty(),
                aborted: false,
            }));
        }
        r
    }

    /// The peer data of the attached socket, if one is attached.
    pub fn get_stream(&self) -> (r: Option<&StreamInfo>)
        ensures
            (match r {
                Some(s) => self@.stream == Some(s@),
                None => self@.stream is None,
            }),
    {
        self.0.stream.as_ref()
    }

    /// The peer address, if a socket is attached.
    pub fn get_socket_addr(&self) -> (r: Option<StreamInfo>)
        ensures
            r.deep_view() == self@.stream,
    {
        match &self.0.stream {
            Some(s) => Some(s.duplicate()),
            None => None,
        }
    }

    /// The peer address, or `0.0.0.0:80` when no socket is attached.
    pub fn get_socket_addr_or_default(&self) -> (r: StreamInfo)
        ensures
            (match self@.stream {
                Some(s) => r@ == s,
                None => r@ == (StreamModel { host: "0.0.0.0"@, port: 80u16 }),
            }),
    {
        match &self.0.stream {
            Some(s) => s.duplicate(),
            None => StreamInfo { host: "0.0.0.0".to_owned(), port: 80 },
        }
    }

    /// The peer host, if a socket is attached.
    pub fn get_socket_host(&self) -> (r: Option<String>)
        ensures
            (match self@.stream {
                Some(s) => r matches Some(h) && h@ == s.host,
                None => r is None,
            }),
    {
        match &self.0.stream {
            Some(s) => Some(s.host.clone()),
            None => None,
        }
    }

    /// The peer port, if a socket is attached.
    pub fn get_socket_port(&self) -> (r: Option<u16>)
        ensures
            (match self@.stream {
                Some(s) => r == Some(s.port),
                None => r is None,
            }),
    {
        match &self.0.stream {
            Some(s) => Some(s.port),
            None => None,
        }
    }

    /// `host:port`, as a listening address is written.
    pub fn format_host_port(host: &str, port: &usize) -> (r: String)
        ensures
            r@ == host@ + ":"@ + dec_seq(*port as nat),
    {
        let mut s: String = host.to_owned();
        s.append(":");
        let p: String = usize_to_string(*port);
        s.append(p.as_str());
        s
    }

    /// A copy of the current request.
    pub fn get_request(&self) -> (r: Request)
        ensures
            r@ == self@.request,
    {
        self.0.request.duplicate()
    }

    /// A copy of the current response.
    pub fn get_response(&self) -> (r: Response)
        ensures
            r@ == self@.response,
    {
        self.0.response.duplicate()
    }

    /// The current request's path.
    pub fn get_request_path(&self) -> (r: String)
        ensures
            r@ == self@.request.path,
    {
        self.0.request.path.clone()
    }

    /// A copy of the current request's body.
    pub fn get_request_body(&self) -> (r: Vec<u8>)
        ensures
            r@ == self@.request.body,
    {
        copy_bytes(&self.0.request.body)
    }

    /// The value of the first request header matching `key` up to ASCII
    /// case, if any.
    pub fn get_request_header(&self, key: &str) -> (r: Option<String>)
        ensures
            (match r {
                Some(v) => crate::request::first_header_value(self@.request.headers, key@) == Some(
                    v@,
                ),
                None => crate::request::first_header_value(self@.request.headers, key@) is None,
            }),
    {
        self.0.request.get_header(key)
    }

    /// A copy of the current request's headers.
    pub fn get_request_headers(&self) -> (r: Vec<(String, String)>)
        ensures
            r.deep_view() == self@.request.headers,
    {
        let r = copy_pairs(&self.0.request.headers);
        proof {
            assert(r.deep_view() =~= self.0.request.headers.deep_view());
        }
        r
    }

    /// Replaces the current request.
    pub fn set_request(&mut self, request: &Request)
        ensures
            final(self)@ == (ContextModel { request: request@, ..old(self)@ }),
    {
        self.0.request = request.duplicate();
        proof {
            assert(self@ =~= (ContextModel { request: request@, ..old(self)@ }));
        }
    }

    /// Replaces the current request's body.
    pub fn set_request_body(&mut self, body: Vec<u8>)
        ensures
            final(self)@ == (ContextModel {
                request: (RequestModel { body: body@, ..old(self)@.request }),
                ..old(self)@
            }),
    {
        let ghost old_model = self@;
        self.0.request.set_body(body);
        proof {
            assert(self@ =~= (ContextModel {
                request: (RequestModel { body: body@, ..old_model.request }),
                ..old_model
            }));
        }
    }

    /// Replaces the current request's method.
    pub fn set_request_method(&mut self, method: String)
        ensures
            final(self)@ == (ContextModel {
                request: (RequestModel { method: method@, ..old(self)@.request }),
                ..old(self)@
            }),
    {
        let ghost old_model = self@;
        let ghost m = method@;
        self.0.request.set_method(method);
        proof {
            assert(self@ =~= (ContextModel {
                request: (RequestModel { method: m, ..old_model.request }),
                ..old_model
            }));
        }
    }

    /// Replaces the current request's host.
    pub fn set_request_host(&mut self, host: String)
        ensures
            final(self)@ == (ContextModel {
                request: (RequestModel { host: host@, ..old(self)@.request }),
                ..old(self)@
            }),
    {
        let ghost old_model = self@;
        let ghost h = host@;
        self.0.request.set_host(host);
        proof {
            assert(self@ =~= (ContextModel {
                request: (RequestModel { host: h, ..old_model.request }),
                ..old_model
            }));
        }
    }

    /// Replaces the current request's path.
    pub fn set_request_path(&mut self, path: String)
        ensures
            final(self)@ == (ContextModel {
                request: (RequestModel { path: path@, ..old(self)@.request }),
                ..old(self)@
            }),
    {
        let ghost old_model = self@;
        let ghost p = path@;
        self.0.request.set_path(path);
        proof {
            assert(self@ =~= (ContextModel {
                request: (RequestModel { path: p, ..old_model.request }),
                ..old_model
            }));
        }
    }

    /// Sets one query pair on the current request.
    pub fn set_request_query(&mut self, key: &str, value: &str)
        ensures
            final(self)@ == (ContextModel {
                request: (RequestModel {
                    querys: assoc_set(old(self)@.request.querys, key@, value@),
                    ..old(self)@.request
                }),
                ..old(self)@
            }),
    {
        let ghost old_model = self@;
        self.0.request.set_query(key, value);
        proof {
            assert(self@ =~= (ContextModel {
                request: (RequestModel {
                    querys: assoc_set(old_model.request.querys, key@, value@),
                    ..old_model.request
                }),
                ..old_model
            }));
        }
    }

    /// Replaces the current request's whole query list.
    pub fn set_request_querys(&mut self, querys: Vec<(String, String)>)
        ensures
            final(self)@ == (ContextModel {
                request: (RequestModel {
                    querys: querys.deep_view(),
                    ..old(self)@.request
                }),
                ..old(self)@
            }),
    {
        let ghost old_model = self@;
        let ghost q = querys.deep_view();
        self.0.request.set_querys(querys);
        proof {
            assert(self@ =~= (ContextModel {
                request: (RequestModel { querys: q, ..old_model.request }),
                ..old_model
            }));
        }
    }

    /// Sets one header pair on the current request.
    pub fn set_request_header(&mut self, key: &str, value: &str)
        ensures
            final(self)@ == (ContextModel {
                request: (RequestModel {
                    headers: assoc_set(old(self)@.request.headers, key@, value@),
                    ..old(self)@.request
                }),
                ..old(self)@
            }),
    {
        let ghost old_model = self@;
        self.0.request.set_header(key, value);
        proof {
            assert(self@ =~= (ContextModel {
                request: (RequestModel {
                    headers: assoc_set(old_model.request.headers, key@, value@),
                    ..old_model.request
                }),
                ..old_model
            }));
        }
    }

    /// Replaces the current request's whole header list.
    pub fn set_request_headers(&mut self, headers: Vec<(String, String)>)
        ensures
            final(self)@ == (ContextModel {
                request: (RequestModel {
                    headers: headers.deep_view(),
                    ..old(self)@.request
                }),
                ..old(self)@
            }),
    {
        let ghost old_model = self@;
        let ghost h = headers.deep_view();
        self.0.request.set_headers(headers);
        proof {
            assert(self@ =~= (ContextModel {
                request: (RequestModel { headers: h, ..old_model.request }),
                ..old_model
            }));
        }
    }

    /// The current request's method.
    pub fn get_request_method(&self) -> (r: String)
        ensures
            r@ == self@.request.method,
    {
        self.0.request.method.clone()
    }

    /// The current request's host.
    pub fn get_request_host(&self) -> (r: String)
        ensures
            r@ == self@.request.host,
    {
        self.0.request.host.clone()
    }

    /// A copy of the current request's query list.
    pub fn get_request_querys(&self) -> (r: Vec<(String, String)>)
        ensures
            r.deep_view() == self@.request.querys,
    {
        let r = copy_pairs(&self.0.request.querys);
        proof {
            assert(r.deep_view() =~= self.0.request.querys.deep_view());
        }
        r
    }

    /// The value of the first query pair with exactly this key, if any.
    pub fn get_request_query(&self, key: &str) -> (r: Option<String>)
        ensures
            (match r {
                Some(v) => assoc_get(self@.request.querys, key@) == Some(v@),
                None => assoc_get(self@.request.querys, key@) is None,
            }),
    {
        self.0.request.get_query(key)
    }

    /// Replaces the current response.
    pub fn set_response(&mut self, response: &Response)
        ensures
            final(self)@ == (ContextModel { response: response@, ..old(self)@ }),
    {
        self.0.response = response.duplicate();
        proof {
            assert(self@ =~= (ContextModel { response: response@, ..old(self)@ }));
        }
    }

    /// Sets one response header, as [`Response::set_header`] does.
    pub fn set_response_header(&mut self, key: &str, value: &str)
        ensures
            final(self)@ == (ContextModel {
                response: (ResponseModel {
                    headers: crate::response::headers_with(old(self)@.response.headers, key@, value@),
                    ..old(self)@.response
                }),
                ..old(self)@
            }),
    {
        let ghost old_model = self@;
        self.0.response.set_header(key, value);
        proof {
            assert(self@ =~= (ContextModel {
                response: (ResponseModel {
                    headers: crate::response::headers_with(old_model.response.headers, key@, value@),
                    ..old_model.response
                }),
                ..old_model
            }));
        }
    }

    /// Replaces the current response's body.
    pub fn set_response_body(&mut self, body: Vec<u8>)
        ensures
            final(self)@ == (ContextModel {
                response: (ResponseModel { body: body@, ..old(self)@.response }),
                ..old(self)@
            }),
    {
        let ghost old_model = self@;
        self.0.response.set_body(body);
        proof {
            assert(self@ =~= (ContextModel {
                response: (ResponseModel { body: body@, ..old_model.response }),
                ..old_model
            }));
        }
    }

    /// Replaces the current response's status code.
    pub fn set_response_status_code(&mut self, status_code: usize)
        ensures
            final(self)@ == (ContextModel {
                response: (ResponseModel {
                    status_code: status_code as int,
                    ..old(self)@.response
                }),
                ..old(self)@
            }),
    {
        let ghost old_model = self@;
        self.0.response.set_status_code(status_code);
        proof {
            assert(self@ =~= (ContextModel {
                response: (ResponseModel {
                    status_code: status_code as int,
                    ..old_model.response
                }),
                ..old_model
            }));
        }
    }

    /// Replaces the current response's reason phrase.
    pub fn set_response_reason_phrase(&mut self, reason_phrase: String)
        ensures
            final(self)@ == (ContextModel {
                response: (ResponseModel {
                    reason_phrase: reason_phrase@,
                    ..old(self)@.response
                }),
                ..old(self)@
            }),
    {
        let ghost old_model = self@;
        let ghost rp = reason_phrase@;
        self.0.response.set_reason_phrase(reason_phrase);
        proof {
            assert(self@ =~= (ContextModel {
                response: (ResponseModel { reason_phrase: rp, ..old_model.response }),
                ..old_model
            }));
        }
    }

    /// Replaces the current response's whole header list.
    pub fn set_response_headers(&mut self, headers: Vec<(String, String)>)
        ensures
            final(self)@ == (ContextModel {
                response: (ResponseModel {
                    headers: headers.deep_view(),
                    ..old(self)@.response
                }),
                ..old(self)@
            }),
    {
        let ghost old_model = self@;
        let ghost h = headers.deep_view();
        self.0.response.set_headers(headers);
        proof {
            assert(self@ =~= (ContextModel {
                response: (ResponseModel { headers: h, ..old_model.response }),
                ..old_model
            }));
        }
    }

    /// A copy of the current response's header list.
    pub fn get_response_headers(&self) -> (r: Vec<(String, String)>)
        ensures
            r.deep_view() == self@.response.headers,
    {
        let r = copy_pairs(&self.0.response.headers);
        proof {
            assert(r.deep_view() =~= self.0.response.headers.deep_view());
        }
        r
    }

    /// The current response's reason phrase.
    pub fn get_response_reason_phrase(&self) -> (r: String)
        ensures
            r@ == self@.response.reason_phrase,
    {
        self.0.response.reason_phrase.clone()
    }

    /// A copy of the current response's body.
    pub fn get_response_body(&self) -> (r: Vec<u8>)
        ensures
            r@ == self@.response.body,
    {
        copy_bytes(&self.0.response.body)
    }

    /// The current response's status code.
    pub fn get_response_status_code(&self) -> (r: usize)
        ensures
            r as int == self@.response.status_code,
    {
        self.0.response.status_code
    }

    /// The value of the first response header named exactly `key`, if any.
    pub fn get_response_header(&self, key: &str) -> (r: Option<String>)
        ensures
            (match r {
                Some(v) => exists|i: int|
                    assoc_index(self@.response.headers, key@) == Some(i)
                        && self@.response.headers[i].1 == v@,
                None => assoc_index(self@.response.headers, key@) is None,
            }),
    {
        self.0.response.get_header(key)
    }

    /// Empties the response body, as each new read cycle does.
    pub fn reset_response_body(&mut self)
        ensures
            final(self)@ == (ContextModel {
                response: (ResponseModel {
                    body: Seq::<u8>::empty(),
                    ..old(self)@.response
                }),
                ..old(self)@
            }),
    {
        let ghost old_model = self@;
        self.0.response.set_body(Vec::new());
        proof {
            assert(self@ =~= (ContextModel {
                response: (ResponseModel { body: Seq::<u8>::empty(), ..old_model.response }),
                ..old_model
            }));
        }
    }

    /// The route parameters of the last resolution.
    pub fn get_route_params(&self) -> (r: Vec<(String, String)>)
        ensures
            r.deep_view() == self@.route_params,
    {
        let r = copy_pairs(&self.0.route_params);
        proof {
            assert(r.deep_view() =~= self.0.route_params.deep_view());
        }
        r
    }

    /// The captured value of the parameter `name`: the last capture under
    /// that name, as later captures shadow earlier ones.
    pub fn get_route_param(&self, name: &str) -> (r: Option<String>)
        ensures
            (match r {
                Some(v) => last_assoc_value(self@.route_params, name@) == Some(v@),
                None => last_assoc_value(self@.route_params, name@) is None,
            }),
    {
        let n: usize = self.0.route_params.len();
        let mut i: usize = n;
        while i > 0
            invariant
                n == self.0.route_params@.len(),
                i <= n,
                last_assoc_before(self@.route_params, name@, n as int) == last_assoc_before(
                    self@.route_params,
                    name@,
                    i as int,
                ),
            decreases i,
        {
            i -= 1;
            assert(self@.route_params[i as int] == (self.0.route_params@[i as int].0@,
            self.0.route_params@[i as int].1@));
            if str_eq(self.0.route_params[i].0.as_str(), name) {
                return Some(self.0.route_params[i].1.clone());
            }
        }
        None
    }

    /// Replaces the route parameters, as each resolution does.
    pub fn set_route_params(&mut self, params: Vec<(String, String)>)
        ensures
            final(self)@ == (ContextModel { route_params: params.deep_view(), ..old(self)@ }),
    {
        let ghost old_model = self@;
        self.0.route_params = params;
        proof {
            assert(self@ =~= (ContextModel {
                route_params: final(self).0.route_params.deep_view(),
                ..old_model
            }));
        }
    }

    /// The position of the attribute stored under `key`, if any.
    fn attr_index(&self, key: &str) -> (r: Option<usize>)
        ensures
            (match r {
                Some(i) => i < self.0.attribute@.len() && assoc_index(self@.attribute, key@)
                    == Some(i as int),
                None => assoc_index(self@.attribute, key@) is None,
            }),
    {
        let n: usize = self.0.attribute.len();
        let mut i: usize = 0;
        while i < n
            invariant
                n == self.0.attribute@.len(),
                i <= n,
                assoc_index(self@.attribute, key@) == assoc_index_from(
                    self@.attribute,
                    key@,
                    i as int,
                ),
            decreases n - i,
        {
            assert(self@.attribute[i as int] == (self.0.attribute@[i as int].0@, self.0.attribute@[
                i as int].1@));
            if str_eq(self.0.attribute[i].0.as_str(), key) {
                return Some(i);
            }
            i += 1;
        }
        None
    }

    /// Stores `value` under `key`, replacing any value already there.
    pub fn set_attribute(&mut self, key: &str, value: AttributeValue)
        ensures
            final(self)@ == (ContextModel {
                attribute: assoc_set(old(self)@.attribute, key@, value@),
                ..old(self)@
            }),
    {
        let ghost old_model = self@;
        let ghost vmodel = value@;
        match self.attr_index(key) {
            Some(i) => {
                self.0.attribute.set(i, (key.to_owned(), value));
                proof {
                    assert(self.0.attribute.deep_view() =~= old_model.attribute.update(
                        i as int,
                        (key@, vmodel),
                    ));
                    assert(self@ =~= (ContextModel {
                        attribute: assoc_set(old_model.attribute, key@, vmodel),
                        ..old_model
                    }));
                }
            },
            None => {
                self.0.attribute.push((key.to_owned(), value));
                proof {
                    assert(self.0.attribute.deep_view() =~= old_model.attribute.push(
                        (key@, vmodel),
                    ));
                    assert(self@ =~= (ContextModel {
                        attribute: assoc_set(old_model.attribute, key@, vmodel),
                        ..old_model
                    }));
                }
            },
        }
    }

    /// The value stored under `key`, if any.
    pub fn get_attribute(&self, key: &str) -> (r: Option<AttributeValue>)
        ensures
            (match r {
                Some(v) => assoc_get(self@.attribute, key@) == Some(v@),
                None => assoc_get(self@.attribute, key@) is None,
            }),
    {
        match self.attr_index(key) {
            Some(i) => Some(self.0.attribute[i].1.duplicate()),
            None => None,
        }
    }

    /// Drops the value stored under `key`, if any.
    pub fn remove_attribute(&mut self, key: &str)
        ensures
            final(self)@ == (ContextModel {
                attribute: assoc_remove(old(self)@.attribute, key@),
                ..old(self)@
            }),
    {
        let ghost old_model = self@;
        match self.attr_index(key) {
            Some(i) => {
                self.0.attribute.remove(i);
                proof {
                    assert(self.0.attribute.deep_view() =~= old_model.attribute.remove(i as int));
                    assert(self@ =~= (ContextModel {
                        attribute: assoc_remove(old_model.attribute, key@),
                        ..old_model
                    }));
                }
            },
            None => {
                proof {
                    assert(self@ =~= (ContextModel {
                        attribute: assoc_remove(old_model.attribute, key@),
                        ..old_model
                    }));
                }
            },
        }
    }

    /// Drops every stored attribute.
    pub fn clear_attribute(&mut self)
        ensures
            final(self)@ == (ContextModel {
                attribute: Seq::<(Seq<char>, AttributeModel)>::empty(),
                ..old(self)@
            }),
    {
        let ghost old_model = self@;
        self.0.attribute.clear();
        proof {
            assert(self.0.attribute.deep_view() =~= Seq::<(Seq<char>, AttributeModel)>::empty());
            assert(self@ =~= (ContextModel {
                attribute: Seq::<(Seq<char>, AttributeModel)>::empty(),
                ..old_model
            }));
        }
    }

    /// The cooperative cancellation signal.
    pub fn get_aborted(&self) -> (r: bool)
        ensures
            r == self@.aborted,
    {
        self.0.aborted
    }

    /// Sets the cancellation signal.
    pub fn set_aborted(&mut self, aborted: bool)
        ensures
            final(self)@ == (ContextModel { aborted, ..old(self)@ }),
    {
        let ghost old_model = self@;
        self.0.aborted = aborted;
        proof {
            assert(self@ =~= (ContextModel { aborted, ..old_model }));
        }
    }

    /// Raises the cancellation signal.
    pub fn aborted(&mut self)
        ensures
            final(self)@ == (ContextModel { aborted: true, ..old(self)@ }),
    {
        self.set_aborted(true);
    }

    /// Clears the cancellation signal.
    pub fn cancel_aborted(&mut self)
        ensures
            final(self)@ == (ContextModel { aborted: false, ..old(self)@ }),
    {
        self.set_aborted(false);
    }

    /// Whether the current exchange is in WebSocket mode, read from the
    /// request's upgrade headers.
    pub fn inner_is_websocket(&self) -> (r: bool)
        ensures
            r == has_upgrade_websocket(self@.request.headers),
    {
        self.0.request.is_websocket_upgrade()
    }

    /// The keep-alive decision for the current request.
    pub fn judge_enable_keep_alive(&self) -> (r: bool)
        ensures
            r == spec_keep_alive(self@.request),
    {
        self.0.request.is_enable_keep_alive()
    }

    /// The complement of [`Self::judge_enable_keep_alive`], the form the
    /// connection loop asks for.
    pub fn judge_unenable_keep_alive(&self) -> (r: bool)
        ensures
            r == !spec_keep_alive(self@.request),
    {
        !self.judge_enable_keep_alive()
    }

    /// Same decision under the name the handler-facing surface uses.
    pub fn is_enable_keep_alive(&self) -> (r: bool)
        ensures
            r == spec_keep_alive(self@.request),
    {
        self.judge_enable_keep_alive()
    }

    /// Whether the current request asks for the WebSocket upgrade.
    pub fn judge_enable_websocket(&self) -> (r: bool)
        ensures
            r == has_upgrade_websocket(self@.request.headers),
    {
        self.0.request.is_websocket_upgrade()
    }

    /// The send decision shared by the whole send family: a socket must be
    /// attached, and HTTP framing must not be used on a WebSocket exchange
    /// unless the handshake response itself is being sent. On success the
    /// body and status are stored and the response to transmit is returned;
    /// the caller performs the transmission.
    pub(crate) fn inner_send_response(
        &mut self,
        status_code: usize,
        body: Vec<u8>,
        handle_websocket: bool,
    ) -> (r: Result<Response, ResponseError>)
        ensures
            old(self)@.stream is None ==> (r matches Err(ResponseError::NotFoundStream) && final(self)@ == old(self)@),
            old(self)@.stream is Some && !handle_websocket && has_upgrade_websocket(
                old(self)@.request.headers,
            ) ==> (r matches Err(ResponseError::MethodNotSupported) && final(self)@ == old(self)@),
            old(self)@.stream is Some && (handle_websocket || !has_upgrade_websocket(
                old(self)@.request.headers,
            )) ==> (r matches Ok(resp) && final(self)@ == (ContextModel {
                response: (ResponseModel {
                    status_code: status_code as int,
                    body: body@,
                    ..old(self)@.response
                }),
                ..old(self)@
            }) && resp@ == (ResponseModel {
                status_code: status_code as int,
                body: body@,
                ..old(self)@.response
            })),
    {
        if self.0.stream.is_none() {
            return Err(ResponseError::NotFoundStream);
        }
        if !handle_websocket && self.inner_is_websocket() {
            return Err(ResponseError::MethodNotSupported);
        }
        let ghost old_model = self@;
        let ghost body_model = body@;
        self.0.response.set_body(body);
        self.0.response.set_status_code(status_code);
        proof {
            assert(self@ =~= (ContextModel {
                response: (ResponseModel {
                    status_code: status_code as int,
                    body: body_model,
                    ..old_model.response
                }),
                ..old_model
            }));
        }
        Ok(self.0.response.duplicate())
    }

    /// Stores `status_code` and `body` and returns the response to
    /// transmit, refusing on a WebSocket exchange or without a socket.
    pub fn send_response(&mut self, status_code: usize, body: Vec<u8>) -> (r: Result<
        Response,
        ResponseError,
    >)
        ensures
            old(self)@.stream is None ==> (r matches Err(ResponseError::NotFoundStream) && final(self)@ == old(self)@),
            old(self)@.stream is Some && has_upgrade_websocket(old(self)@.request.headers)
                ==> (r matches Err(ResponseError::MethodNotSupported) && final(self)@ == old(self)@),
            old(self)@.stream is Some && !has_upgrade_websocket(old(self)@.request.headers)
                ==> (r matches Ok(resp) && final(self)@ == (ContextModel {
                response: (ResponseModel {
                    status_code: status_code as int,
                    body: body@,
                    ..old(self)@.response
                }),
                ..old(self)@
            }) && resp@ == (ResponseModel {
                status_code: status_code as int,
                body: body@,
                ..old(self)@.response
            })),
    {
        self.inner_send_response(status_code, body, false)
    }

    /// Returns the current response for transmission, under the same
    /// guards as [`Self::send_response`]; the stored response is unchanged.
    pub fn send(&mut self) -> (r: Result<Response, ResponseError>)
        ensures
            final(self)@ == old(self)@,
            old(self)@.stream is None ==> r matches Err(ResponseError::NotFoundStream),
            old(self)@.stream is Some && has_upgrade_websocket(old(self)@.request.headers)
                ==> r matches Err(ResponseError::MethodNotSupported),
            old(self)@.stream is Some && !has_upgrade_websocket(old(self)@.request.headers)
                ==> (r matches Ok(resp) && resp@ == old(self)@.response),
    {
        let status_code: usize = self.0.response.status_code;
        let body: Vec<u8> = copy_bytes(&self.0.response.body);
        let r = self.inner_send_response(status_code, body, false);
        proof {
            assert(self@ =~= old(self)@);
        }
        r
    }

    /// As [`Self::send_response`]; after a successful transmission the
    /// caller must also close the connection — this is the "I am done with
    /// this socket" primitive.
    pub fn send_response_once(&mut self, status_code: usize, body: Vec<u8>) -> (r: Result<
        Response,
        ResponseError,
    >)
        ensures
            old(self)@.stream is None ==> (r matches Err(ResponseError::NotFoundStream) && final(self)@ == old(self)@),
            old(self)@.stream is Some && has_upgrade_websocket(old(self)@.request.headers)
                ==> (r matches Err(ResponseError::MethodNotSupported) && final(self)@ == old(self)@),
            old(self)@.stream is Some && !has_upgrade_websocket(old(self)@.request.headers)
                ==> (r matches Ok(resp) && final(self)@ == (ContextModel {
                response: (ResponseModel {
                    status_code: status_code as int,
                    body: body@,
                    ..old(self)@.response
                }),
                ..old(self)@
            }) && resp@ == (ResponseModel {
                status_code: status_code as int,
                body: body@,
                ..old(self)@.response
            })),
    {
        self.inner_send_response(status_code, body, false)
    }

    /// As [`Self::send`], with the closing obligation of
    /// [`Self::send_response_once`].
    pub fn send_once(&mut self) -> (r: Result<Response, ResponseError>)
        ensures
            final(self)@ == old(self)@,
            old(self)@.stream is None ==> r matches Err(ResponseError::NotFoundStream),
            old(self)@.stream is Some && has_upgrade_websocket(old(self)@.request.headers)
                ==> r matches Err(ResponseError::MethodNotSupported),
            old(self)@.stream is Some && !has_upgrade_websocket(old(self)@.request.headers)
                ==> (r matches Ok(resp) && resp@ == old(self)@.response),
    {
        self.send()
    }

    /// Stores `body` and returns the bytes to transmit as a bare body: on
    /// a WebSocket exchange they go out as one frame, otherwise as plain
    /// bytes; only an attached socket is required.
    pub fn send_response_body(&mut self, body: Vec<u8>) -> (r: Result<Vec<u8>, ResponseError>)
        ensures
            old(self)@.stream is None ==> (r matches Err(ResponseError::NotFoundStream) && final(self)@ == old(self)@),
            old(self)@.stream is Some ==> (r matches Ok(b) && final(self)@ == (ContextModel {
                response: (ResponseModel { body: body@, ..old(self)@.response }),
                ..old(self)@
            }) && b@ == body@),
    {
        if self.0.stream.is_none() {
            return Err(ResponseError::NotFoundStream);
        }
        let ghost old_model = self@;
        let ghost body_model = body@;
        let out: Vec<u8> = copy_bytes(&body);
        self.0.response.set_body(body);
        proof {
            assert(self@ =~= (ContextModel {
                response: (ResponseModel { body: body_model, ..old_model.response }),
                ..old_model
            }));
        }
        Ok(out)
    }

    /// The current response body, for transmission as
    /// [`Self::send_response_body`] sends one.
    pub fn send_body(&mut self) -> (r: Result<Vec<u8>, ResponseError>)
        ensures
            final(self)@ == old(self)@,
            old(self)@.stream is None ==> r matches Err(ResponseError::NotFoundStream),
            old(self)@.stream is Some ==> (r matches Ok(b) && b@ == old(self)@.response.body),
    {
        let body: Vec<u8> = copy_bytes(&self.0.response.body);
        let r = self.send_response_body(body);
        proof {
            assert(self@ =~= old(self)@);
        }
        r
    }

    /// Whether the connection may be closed: it needs an attached socket.
    /// The caller performs the close itself.
    pub fn close(&self) -> (r: Result<(), ResponseError>)
        ensures
            self@.stream is Some ==> r is Ok,
            self@.stream is None ==> r matches Err(ResponseError::NotFoundStream),
    {
        if self.0.stream.is_some() {
            Ok(())
        } else {
            Err(ResponseError::NotFoundStream)
        }
    }

    /// Whether buffered output may be flushed: it needs an attached
    /// socket. The caller performs the flush itself.
    pub fn flush(&self) -> (r: Result<(), ResponseError>)
        ensures
            self@.stream is Some ==> r is Ok,
            self@.stream is None ==> r matches Err(ResponseError::NotFoundStream),
    {
        if self.0.stream.is_some() {
            Ok(())
        } else {
            Err(ResponseError::NotFoundStream)
        }
    }

    /// Opens one read cycle: empties the response body, then refuses when
    /// the exchange is aborted or no socket is attached. On success the
    /// caller reads the next request unit and hands it to
    /// [`Self::set_request`].
    pub fn begin_request_read(&mut self) -> (r: Result<(), RequestError>)
        ensures
            final(self)@ == (ContextModel {
                response: (ResponseModel {
                    body: Seq::<u8>::empty(),
                    ..old(self)@.response
                }),
                ..old(self)@
            }),
            (match r {
                Ok(_) => !old(self)@.aborted && old(self)@.stream is Some,
                Err(RequestError::RequestAborted) => old(self)@.aborted,
                Err(RequestError::GetTcpStream) => !old(self)@.aborted && old(self)@.stream
                    is None,
                Err(RequestError::InvalidHttpRequest) => false,
            }),
    {
        self.reset_response_body();
        if self.0.aborted {
            return Err(RequestError::RequestAborted);
        }
        if self.0.stream.is_none() {
            return Err(RequestError::GetTcpStream);
        }
        Ok(())
    }
}

/// The value of the last pair before position `end` whose key is exactly
/// `name` — later route captures shadow earlier ones.
pub open spec fn last_assoc_before(
    hs: Seq<(Seq<char>, Seq<char>)>,
    name: Seq<char>,
    end: int,
) -> Option<Seq<char>>
    decreases end,
{
    if end <= 0 || end > hs.len() {
        None
    } else if hs[end - 1].0 == name {
        Some(hs[end - 1].1)
    } else {
        last_assoc_before(hs, name, end - 1)
    }
}

/// The value of the last pair whose key is exactly `name`, if any.
pub open spec fn last_assoc_value(hs: Seq<(Seq<char>, Seq<char>)>, name: Seq<char>) -> Option<
    Seq<char>,
> {
    last_assoc_before(hs, name, hs.len() as int)
}

} // verus!
