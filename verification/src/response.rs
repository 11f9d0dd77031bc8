use vstd::prelude::*;

use crate::request::{copy_bytes, copy_pairs};
use crate::table::{assoc_index, assoc_index_from};

verus! {

/// The mathematical content of one response.
#[verifier::ext_equal]
pub struct ResponseModel {
    pub status_code: int,
    pub reason_phrase: Seq<char>,
    pub headers: Seq<(Seq<char>, Seq<char>)>,
    pub body: Seq<u8>,
}

/// The header list after setting `name` to `value`: the first pair with
/// exactly that name is replaced, or the pair is appended when none exists.
pub open spec fn headers_with(
    hs: Seq<(Seq<char>, Seq<char>)>,
    name: Seq<char>,
    value: Seq<char>,
) -> Seq<(Seq<char>, Seq<char>)> {
    match assoc_index(hs, name) {
        Some(i) => hs.update(i, (name, value)),
        None => hs.push((name, value)),
    }
}

/// One HTTP response under construction for the current exchange.
#[derive(Debug)]
pub struct Response {
    pub status_code: usize,
    pub reason_phrase: String,
    pub headers: Vec<(String, String)>,
    pub body: Vec<u8>,
}

impl View for Response {
    type V = ResponseModel;

    open spec fn view(&self) -> ResponseModel {
        ResponseModel {
            status_code: self.status_code as int,
            reason_phrase: self.reason_phrase@,
            headers: self.headers.deep_view(),
            body: self.body@,
        }
    }
}

impl Response {
    /// An exact copy.
    pub fn duplicate(&self) -> (r: Response)
        ensures
            r@ == self@,
    {
        let r = Response {
            status_code: self.status_code,
            reason_phrase: self.reason_phrase.clone(),
            headers: copy_pairs(&self.headers),
            body: copy_bytes(&self.body),
        };
        proof {
            assert(r.headers.deep_view() =~= self.headers.deep_view());
            assert(r@ =~= self@);
        }
        r
    }

    /// Replaces the status code, leaving every other field as it was.
    pub fn set_status_code(&mut self, status_code: usize)
        ensures
            final(self)@ == (ResponseModel { status_code: status_code as int, ..old(self)@ }),
    {
        self.status_code = status_code;
    }

    /// Replaces the reason phrase, leaving every other field as it was.
    pub fn set_reason_phrase(&mut self, reason_phrase: String)
        ensures
            final(self)@ == (ResponseModel { reason_phrase: reason_phrase@, ..old(self)@ }),
    {
        self.reason_phrase = reason_phrase;
    }

    /// Replaces the body, leaving every other field as it was.
    pub fn set_body(&mut self, body: Vec<u8>)
        ensures
            final(self)@ == (ResponseModel { body: body@, ..old(self)@ }),
    {
        self.body = body;
    }

    /// Replaces the whole header list.
    pub fn set_headers(&mut self, headers: Vec<(String, String)>)
        ensures
            final(self)@ == (ResponseModel { headers: headers.deep_view(), ..old(self)@ }),
    {
        self.headers = headers;
    }

    /// Sets one header: overwrites the first pair with exactly this name,
    /// or appends the pair when the name is not present yet.
    pub fn set_header(&mut self, key: &str, value: &str)
        ensures
            final(self)@ == (ResponseModel {
                headers: headers_with(old(self)@.headers, key@, value@),
                ..old(self)@
            }),
    {
        let n: usize = self.headers.len();
        let mut i: usize = 0;
        while i < n
            invariant
                *self == *old(self),
                n == self.headers@.len(),
                i <= n,
                assoc_index(self@.headers, key@) == assoc_index_from(
                    self@.headers,
                    key@,
                    i as int,
                ),
            decreases n - i,
        {
            assert(self@.headers[i as int] == (self.headers@[i as int].0@, self.headers@[
                i as int].1@));
            if crate::text::str_eq(self.headers[i].0.as_str(), key) {
                let ghost old_model = self@;
                self.headers.set(i, (key.to_owned(), value.to_owned()));
                proof {
                    assert(assoc_index(old_model.headers, key@) == Some(i as int));
                    assert(self.headers.deep_view() =~= old_model.headers.update(
                        i as int,
                        (key@, value@),
                    ));
                    assert(self@ =~= (ResponseModel {
                        headers: headers_with(old_model.headers, key@, value@),
                        ..old_model
                    }));
                }
                return ;
            }
            i += 1;
        }
        let ghost old_model = self@;
        self.headers.push((key.to_owned(), value.to_owned()));
        proof {
            assert(assoc_index(old_model.headers, key@) is None);
            assert(self.headers.deep_view() =~= old_model.headers.push((key@, value@)));
            assert(self@ =~= (ResponseModel {
                headers: headers_with(old_model.headers, key@, value@),
                ..old_model
            }));
        }
    }

    /// The value of the first header named exactly `key`, if any.
    pub fn get_header(&self, key: &str) -> (r: Option<String>)
        ensures
            (match r {
                Some(v) => exists|i: int|
                    assoc_index(self@.headers, key@) == Some(i) && self@.headers[i].1 == v@,
                None => assoc_index(self@.headers, key@) is None,
            }),
    {
        let n: usize = self.headers.len();
        let mut i: usize = 0;
        while i < n
            invariant
                n == self.headers@.len(),
                i <= n,
                assoc_index(self@.headers, key@) == assoc_index_from(
                    self@.headers,
                    key@,
                    i as int,
                ),
            decreases n - i,
        {
            assert(self@.headers[i as int] == (self.headers@[i as int].0@, self.headers@[
                i as int].1@));
            if crate::text::str_eq(self.headers[i].0.as_str(), key) {
                return Some(self.headers[i].1.clone());
            }
            i += 1;
        }
        None
    }
}

/// The model of the pristine response every exchange starts from: status
/// 200 with reason `OK`, no headers, empty body.
pub open spec fn default_response_model() -> ResponseModel {
    ResponseModel {
        status_code: 200int,
        reason_phrase: "OK"@,
        headers: Seq::<(Seq<char>, Seq<char>)>::empty(),
        body: Seq::<u8>::empty(),
    }
}

impl Default for Response {
    /// The pristine response, [`default_response_model`] exactly.
    fn default() -> (r: Self)
        ensures
            r@ == default_response_model(),
    {
        let r = Response {
            status_code: 200,
            reason_phrase: "OK".to_owned(),
            headers: Vec::new(),
            body: Vec::new(),
        };
        proof {
            assert(r.headers.deep_view() =~= Seq::<(Seq<char>, Seq<char>)>::empty());
            assert(r@ =~= default_response_model());
        }
        r
    }
}

} // verus!
