//! Incoming HTTP request (method, path, query, headers, body, attributes).

use vstd::prelude::*;

use crate::http::attributes::{AttributeBag, AttributeValue};
use crate::http::headers::{lower, Headers};
use crate::http::method::Method;

verus! {

/// Framework-agnostic HTTP request.
#[derive(Debug)]
pub struct Request {
    method: Method,
    path: String,
    query: Option<String>,
    headers: Headers,
    body: Vec<u8>,
    attributes: AttributeBag,
}

impl Request {
    pub closed spec fn method_view(&self) -> Method {
        self.method
    }

    pub closed spec fn path_view(&self) -> Seq<char> {
        self.path@
    }

    pub closed spec fn query_view(&self) -> Option<Seq<char>> {
        match self.query {
            Some(q) => Some(q@),
            None => None,
        }
    }

    pub closed spec fn headers_view(&self) -> Map<Seq<char>, Seq<char>> {
        self.headers@
    }

    pub closed spec fn body_view(&self) -> Seq<u8> {
        self.body@
    }

    pub closed spec fn attributes_view(&self) -> Map<Seq<char>, AttributeValue> {
        self.attributes@
    }

    /// Request for `method` on `path`, without query, headers or body.
    pub fn new(method: Method, path: &str) -> (r: Request)
        ensures
            r.method_view() == method,
            r.path_view() == path@,
            r.query_view() is None,
            r.headers_view() == Map::<Seq<char>, Seq<char>>::empty(),
            r.body_view() == Seq::<u8>::empty(),
            r.attributes_view() == Map::<Seq<char>, AttributeValue>::empty(),
    {
        Request {
            method,
            path: path.to_owned(),
            query: None,
            headers: Headers::new(),
            body: Vec::new(),
            attributes: AttributeBag::new(),
        }
    }

    /// Sets the raw query string (without `?`).
    pub fn with_query(self, query: &str) -> (r: Request)
        ensures
            r.method_view() == self.method_view(),
            r.path_view() == self.path_view(),
            r.query_view() == Some(query@),
            r.headers_view() == self.headers_view(),
            r.body_view() == self.body_view(),
            r.attributes_view() == self.attributes_view(),
    {
        let mut r = self;
        r.query = Some(query.to_owned());
        r
    }

    /// Adds or replaces a header.
    pub fn with_header(self, name: &str, value: &str) -> (r: Request)
        ensures
            r.method_view() == self.method_view(),
            r.path_view() == self.path_view(),
            r.query_view() == self.query_view(),
            r.headers_view() == self.headers_view().insert(lower(name@), value@),
            r.body_view() == self.body_view(),
            r.attributes_view() == self.attributes_view(),
    {
        let mut r = self;
        r.headers.insert(name, value);
        r
    }

    /// Sets the raw body.
    pub fn with_body(self, body: Vec<u8>) -> (r: Request)
        ensures
            r.method_view() == self.method_view(),
            r.path_view() == self.path_view(),
            r.query_view() == self.query_view(),
            r.headers_view() == self.headers_view(),
            r.body_view() == body@,
            r.attributes_view() == self.attributes_view(),
    {
        let mut r = self;
        r.body = body;
        r
    }

    /// Request method.
    pub fn method(&self) -> (r: Method)
        ensures
            r == self.method_view(),
    {
        self.method
    }

    /// Request path.
    pub fn path(&self) -> (r: &str)
        ensures
            r@ == self.path_view(),
    {
        self.path.as_str()
    }

    /// Raw query string, when present.
    pub fn query(&self) -> (r: Option<&str>)
        ensures
            match r {
                Some(q) => self.query_view() == Some(q@),
                None => self.query_view() is None,
            },
    {
        match &self.query {
            Some(q) => Some(q.as_str()),
            None => None,
        }
    }

    /// Request headers.
    pub fn headers(&self) -> (r: &Headers)
        ensures
            r@ == self.headers_view(),
    {
        &self.headers
    }

    /// Request-scoped attributes.
    pub fn attributes(&self) -> (r: &AttributeBag)
        ensures
            r@ == self.attributes_view(),
    {
        &self.attributes
    }

    /// Mutable request-scoped attributes.
    pub fn attributes_mut(&mut self) -> (r: &mut AttributeBag)
        ensures
            r@ == old(self).attributes_view(),
            final(self).attributes_view() == final(r)@,
            final(self).method_view() == old(self).method_view(),
            final(self).path_view() == old(self).path_view(),
            final(self).query_view() == old(self).query_view(),
            final(self).headers_view() == old(self).headers_view(),
            final(self).body_view() == old(self).body_view(),
    {
        &mut self.attributes
    }

    /// Raw body bytes.
    pub fn body(&self) -> (r: &[u8])
        ensures
            r@ == self.body_view(),
    {
        self.body.as_slice()
    }
}

} // verus!
