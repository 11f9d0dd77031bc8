use vstd::prelude::*;

use crate::table::{assoc_get, assoc_set, get_pair_in, set_pair_in};
use crate::text::{eq_ignore_case, str_eq_ignore_ascii_case};

verus! {

/// The protocol version a request was made with.
#[derive(Debug, Clone, Copy, PartialEq, Eq, Structural)]
pub enum HttpVersion {
    Http0_9,
    Http1_0,
    Http1_1,
    Http2,
    Http3,
    Unknown,
}

impl HttpVersion {
    /// Versions from 1.1 on default to keep-alive when no `Connection`
    /// header says otherwise.
    pub open spec fn spec_is_http1_1_or_higher(self) -> bool {
        self == HttpVersion::Http1_1 || self == HttpVersion::Http2 || self == HttpVersion::Http3
    }

    pub fn is_http1_1_or_higher(&self) -> (r: bool)
        ensures
            r == self.spec_is_http1_1_or_higher(),
    {
        matches!(self, HttpVersion::Http1_1 | HttpVersion::Http2 | HttpVersion::Http3)
    }
}

/// The value of the first header whose name equals `name` up to ASCII case,
/// scanning in order.
pub open spec fn first_header_value(hs: Seq<(Seq<char>, Seq<char>)>, name: Seq<char>) -> Option<
    Seq<char>,
>
    decreases hs.len(),
{
    if hs.len() == 0 {
        None
    } else if eq_ignore_case(hs[0].0, name) {
        Some(hs[0].1)
    } else {
        first_header_value(hs.drop_first(), name)
    }
}

/// Whether some header pair has name `upgrade` and value `websocket`, both
/// compared without regard to ASCII case.
pub open spec fn has_upgrade_websocket(hs: Seq<(Seq<char>, Seq<char>)>) -> bool {
    exists|i: int|
        0 <= i < hs.len() && eq_ignore_case(hs[i].0, "upgrade"@) && eq_ignore_case(
            hs[i].1,
            "websocket"@,
        )
}

/// The mathematical content of one request.
#[verifier::ext_equal]
pub struct RequestModel {
    pub method: Seq<char>,
    pub host: Seq<char>,
    pub version: HttpVersion,
    pub path: Seq<char>,
    pub querys: Seq<(Seq<char>, Seq<char>)>,
    pub headers: Seq<(Seq<char>, Seq<char>)>,
    pub body: Seq<u8>,
}

/// One HTTP request, as the connection loop and the handlers see it: the
/// wire-format collaborator has already split it into plain fields.
#[derive(Debug)]
pub struct Request {
    pub method: String,
    pub host: String,
    pub version: HttpVersion,
    pub path: String,
    pub querys: Vec<(String, String)>,
    pub headers: Vec<(String, String)>,
    pub body: Vec<u8>,
}

impl View for Request {
    type V = RequestModel;

    open spec fn view(&self) -> RequestModel {
        RequestModel {
            method: self.method@,
            host: self.host@,
            version: self.version,
            path: self.path@,
            querys: self.querys.deep_view(),
            headers: self.headers.deep_view(),
            body: self.body@,
        }
    }
}

/// The keep-alive policy of one request: an explicit `Connection` header
/// value of `keep-alive` or `close` decides; otherwise the protocol version
/// does (1.1 or higher keeps the connection open).
pub open spec fn spec_keep_alive(req: RequestModel) -> bool {
    match first_header_value(req.headers, "connection"@) {
        Some(v) => if eq_ignore_case(v, "keep-alive"@) {
            true
        } else if eq_ignore_case(v, "close"@) {
            false
        } else {
            req.version.spec_is_http1_1_or_higher()
        },
        None => req.version.spec_is_http1_1_or_higher(),
    }
}

/// Law: a request whose `Connection` header says `close` (in any ASCII
/// case) is never kept alive, whatever its protocol version.
pub proof fn lemma_connection_close_refuses_keep_alive(req: RequestModel)
    requires
        ({
            let h = first_header_value(req.headers, "connection"@);
            h is Some && eq_ignore_case(h->Some_0, "close"@)
        }),
    ensures
        !spec_keep_alive(req),
{
    let v = first_header_value(req.headers, "connection"@)->Some_0;
    reveal_strlit("close");
    reveal_strlit("keep-alive");
    assert(crate::text::lower_seq(v).len() == v.len());
    assert(crate::text::lower_seq("close"@).len() == 5);
    assert(crate::text::lower_seq("keep-alive"@).len() == 10);
    assert(!eq_ignore_case(v, "keep-alive"@));
}

/// Law: a request without a `Connection` header is kept alive exactly
/// when its protocol version is 1.1 or higher.
pub proof fn lemma_keep_alive_defaults_to_version(req: RequestModel)
    requires
        first_header_value(req.headers, "connection"@) is None,
    ensures
        spec_keep_alive(req) == req.version.spec_is_http1_1_or_higher(),
{
}

proof fn lemma_first_header_value_step(hs: Seq<(Seq<char>, Seq<char>)>, name: Seq<char>, i: int)
    requires
        0 <= i < hs.len(),
        !eq_ignore_case(hs[i].0, name),
    ensures
        first_header_value(hs.skip(i), name) == first_header_value(hs.skip(i + 1), name),
{
    assert(hs.skip(i).drop_first() =~= hs.skip(i + 1));
    assert(hs.skip(i)[0] == hs[i]);
}

impl Request {
    /// An exact copy.
    pub fn duplicate(&self) -> (r: Request)
        ensures
            r@ == self@,
    {
        let r = Request {
            method: self.method.clone(),
            host: self.host.clone(),
            version: self.version,
            path: self.path.clone(),
            querys: copy_pairs(&self.querys),
            headers: copy_pairs(&self.headers),
            body: copy_bytes(&self.body),
        };
        proof {
            assert(r.querys.deep_view() =~= self.querys.deep_view());
            assert(r.headers.deep_view() =~= self.headers.deep_view());
            assert(r@ =~= self@);
        }
        r
    }

    /// The value of the first header whose name matches `key` up to ASCII
    /// case, if any.
    pub fn get_header(&self, key: &str) -> (r: Option<String>)
        ensures
            (match r {
                Some(v) => first_header_value(self@.headers, key@) == Some(v@),
                None => first_header_value(self@.headers, key@) is None,
            }),
    {
        let n: usize = self.headers.len();
        let mut i: usize = 0;
        proof {
            assert(self@.headers.skip(0) =~= self@.headers);
        }
        while i < n
            invariant
                n == self.headers@.len(),
                i <= n,
                first_header_value(self@.headers, key@) == first_header_value(
                    self@.headers.skip(i as int),
                    key@,
                ),
            decreases n - i,
        {
            assert(self@.headers[i as int] == (self.headers@[i as int].0@, self.headers@[
                i as int].1@));
            if str_eq_ignore_ascii_case(self.headers[i].0.as_str(), key) {
                assert(self@.headers.skip(i as int)[0] == self@.headers[i as int]);
                return Some(self.headers[i].1.clone());
            }
            proof {
                lemma_first_header_value_step(self@.headers, key@, i as int);
            }
            i += 1;
        }
        assert(self@.headers.skip(n as int) =~= Seq::<(Seq<char>, Seq<char>)>::empty());
        None
    }

    /// Whether this request asks for the WebSocket upgrade.
    pub fn is_websocket_upgrade(&self) -> (r: bool)
        ensures
            r == has_upgrade_websocket(self@.headers),
    {
        let n: usize = self.headers.len();
        let mut i: usize = 0;
        while i < n
            invariant
                n == self.headers@.len(),
                i <= n,
                forall|j: int|
                    0 <= j < i ==> !(eq_ignore_case(self@.headers[j].0, "upgrade"@)
                        && eq_ignore_case(self@.headers[j].1, "websocket"@)),
            decreases n - i,
        {
            assert(self@.headers[i as int] == (self.headers@[i as int].0@, self.headers@[
                i as int].1@));
            if str_eq_ignore_ascii_case(self.headers[i].0.as_str(), "upgrade")
                && str_eq_ignore_ascii_case(self.headers[i].1.as_str(), "websocket") {
                return true;
            }
            i += 1;
        }
        false
    }

    /// The keep-alive decision for this request, exactly as
    /// [`spec_keep_alive`] states it.
    pub fn is_enable_keep_alive(&self) -> (r: bool)
        ensures
            r == spec_keep_alive(self@),
    {
        let n: usize = self.headers.len();
        let mut i: usize = 0;
        proof {
            assert(self@.headers.skip(0) =~= self@.headers);
        }
        while i < n
            invariant
                n == self.headers@.len(),
                i <= n,
                first_header_value(self@.headers, "connection"@) == first_header_value(
                    self@.headers.skip(i as int),
                    "connection"@,
                ),
            decreases n - i,
        {
            assert(self@.headers[i as int] == (self.headers@[i as int].0@, self.headers@[
                i as int].1@));
            if str_eq_ignore_ascii_case(self.headers[i].0.as_str(), "connection") {
                assert(self@.headers.skip(i as int)[0] == self@.headers[i as int]);
                let value: &str = self.headers[i].1.as_str();
                if str_eq_ignore_ascii_case(value, "keep-alive") {
                    return true;
                } else if str_eq_ignore_ascii_case(value, "close") {
                    return false;
                } else {
                    return self.version.is_http1_1_or_higher();
                }
            }
            proof {
                lemma_first_header_value_step(self@.headers, "connection"@, i as int);
            }
            i += 1;
        }
        assert(self@.headers.skip(n as int) =~= Seq::<(Seq<char>, Seq<char>)>::empty());
        self.version.is_http1_1_or_higher()
    }

    /// Replaces the body, leaving every other field as it was.
    pub fn set_body(&mut self, body: Vec<u8>)
        ensures
            final(self)@ == (RequestModel { body: body@, ..old(self)@ }),
    {
        self.body = body;
    }

    /// Replaces the method, leaving every other field as it was.
    pub fn set_method(&mut self, method: String)
        ensures
            final(self)@ == (RequestModel { method: method@, ..old(self)@ }),
    {
        self.method = method;
    }

    /// Replaces the host, leaving every other field as it was.
    pub fn set_host(&mut self, host: String)
        ensures
            final(self)@ == (RequestModel { host: host@, ..old(self)@ }),
    {
        self.host = host;
    }

    /// Replaces the protocol version, leaving every other field as it was.
    pub fn set_version(&mut self, version: HttpVersion)
        ensures
            final(self)@ == (RequestModel { version, ..old(self)@ }),
    {
        self.version = version;
    }

    /// Replaces the whole query list.
    pub fn set_querys(&mut self, querys: Vec<(String, String)>)
        ensures
            final(self)@ == (RequestModel { querys: querys.deep_view(), ..old(self)@ }),
    {
        self.querys = querys;
    }

    /// Replaces the whole header list.
    pub fn set_headers(&mut self, headers: Vec<(String, String)>)
        ensures
            final(self)@ == (RequestModel { headers: headers.deep_view(), ..old(self)@ }),
    {
        self.headers = headers;
    }

    /// Sets one query pair: overwrites the first pair with exactly this
    /// key, or appends the pair when the key is not present yet.
    pub fn set_query(&mut self, key: &str, value: &str)
        ensures
            final(self)@ == (RequestModel {
                querys: assoc_set(old(self)@.querys, key@, value@),
                ..old(self)@
            }),
    {
        let ghost old_model = self@;
        set_pair_in(&mut self.querys, key, value);
        proof {
            assert(self@ =~= (RequestModel {
                querys: assoc_set(old_model.querys, key@, value@),
                ..old_model
            }));
        }
    }

    /// Sets one header pair: overwrites the first pair with exactly this
    /// name, or appends the pair when the name is not present yet.
    pub fn set_header(&mut self, key: &str, value: &str)
        ensures
            final(self)@ == (RequestModel {
                headers: assoc_set(old(self)@.headers, key@, value@),
                ..old(self)@
            }),
    {
        let ghost old_model = self@;
        set_pair_in(&mut self.headers, key, value);
        proof {
            assert(self@ =~= (RequestModel {
                headers: assoc_set(old_model.headers, key@, value@),
                ..old_model
            }));
        }
    }

    /// The value of the first query pair with exactly this key, if any.
    pub fn get_query(&self, key: &str) -> (r: Option<String>)
        ensures
            (match r {
                Some(v) => assoc_get(self@.querys, key@) == Some(v@),
                None => assoc_get(self@.querys, key@) is None,
            }),
    {
        get_pair_in(&self.querys, key)
    }

    /// Replaces the path, leaving every other field as it was.
    pub fn set_path(&mut self, path: String)
        ensures
            final(self)@ == (RequestModel { path: path@, ..old(self)@ }),
    {
        self.path = path;
    }
}

/// The model of the empty request: every text field empty, version 1.1,
/// no headers, no query pairs, empty body.
pub open spec fn default_request_model() -> RequestModel {
    RequestModel {
        method: Seq::<char>::empty(),
        host: Seq::<char>::empty(),
        version: HttpVersion::Http1_1,
        path: Seq::<char>::empty(),
        querys: Seq::<(Seq<char>, Seq<char>)>::empty(),
        headers: Seq::<(Seq<char>, Seq<char>)>::empty(),
        body: Seq::<u8>::empty(),
    }
}

impl Default for Request {
    /// The empty request, [`default_request_model`] exactly.
    fn default() -> (r: Self)
        ensures
            r@ == default_request_model(),
    {
        let r = Request {
            method: String::new(),
            host: String::new(),
            version: HttpVersion::Http1_1,
            path: String::new(),
            querys: Vec::new(),
            headers: Vec::new(),
            body: Vec::new(),
        };
        proof {
            assert(r.querys.deep_view() =~= Seq::<(Seq<char>, Seq<char>)>::empty());
            assert(r.headers.deep_view() =~= Seq::<(Seq<char>, Seq<char>)>::empty());
            assert(r@ =~= default_request_model());
        }
        r
    }
}

/// An exact copy of a list of string pairs.
pub fn copy_pairs(v: &Vec<(String, String)>) -> (r: Vec<(String, String)>)
    ensures
        r@ == v@,
{
    let n: usize = v.len();
    let mut r: Vec<(String, String)> = Vec::new();
    let mut i: usize = 0;
    while i < n
        invariant
            n == v@.len(),
            i <= n,
            r@ =~= v@.take(i as int),
        decreases n - i,
    {
        r.push((v[i].0.clone(), v[i].1.clone()));
        i += 1;
    }
    proof {
        assert(r@ =~= v@);
    }
    r
}

/// An exact copy of a byte vector.
pub fn copy_bytes(v: &Vec<u8>) -> (r: Vec<u8>)
    ensures
        r@ == v@,
{
    let n: usize = v.len();
    let mut r: Vec<u8> = Vec::new();
    let mut i: usize = 0;
    while i < n
        invariant
            n == v@.len(),
            i <= n,
            r@ =~= v@.take(i as int),
        decreases n - i,
    {
        r.push(v[i]);
        i += 1;
    }
    proof {
        assert(r@ =~= v@);
    }
    r
}

} // verus!
