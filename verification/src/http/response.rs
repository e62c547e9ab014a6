//! Outgoing HTTP response.

use vstd::prelude::*;

use crate::http::headers::{lower, Headers};
use crate::text::{utf8_bytes, utf8_str};

verus! {

/// Framework-agnostic HTTP response.
#[derive(Clone, Debug)]
pub struct Response {
    status: u16,
    headers: Headers,
    body: Vec<u8>,
}

impl Response {
    pub closed spec fn status_view(&self) -> u16 {
        self.status
    }

    pub closed spec fn headers_view(&self) -> Map<Seq<char>, Seq<char>> {
        self.headers@
    }

    pub closed spec fn body_view(&self) -> Seq<u8> {
        self.body@
    }

    /// Empty body at `status`.
    pub fn new(status: u16) -> (r: Response)
        ensures
            r.status_view() == status,
            r.headers_view() == Map::<Seq<char>, Seq<char>>::empty(),
            r.body_view() == Seq::<u8>::empty(),
    {
        Response { status, headers: Headers::new(), body: Vec::new() }
    }

    /// UTF-8 body with `content-type: text/plain; charset=utf-8`.
    pub fn text(status: u16, body: &str) -> (r: Response)
        ensures
            r.status_view() == status,
            r.headers_view() == Map::<Seq<char>, Seq<char>>::empty().insert(
                lower("content-type"@),
                "text/plain; charset=utf-8"@,
            ),
            r.body_view() == vstd::utf8::encode_utf8(body@),
    {
        Response::new(status).with_header("content-type", "text/plain; charset=utf-8").with_body(
            utf8_bytes(body),
        )
    }

    /// Adds or replaces a header.
    pub fn with_header(self, name: &str, value: &str) -> (r: Response)
        ensures
            r.status_view() == self.status_view(),
            r.headers_view() == self.headers_view().insert(lower(name@), value@),
            r.body_view() == self.body_view(),
    {
        let mut r = self;
        r.headers.insert(name, value);
        r
    }

    /// Sets the raw body.
    pub fn with_body(self, body: Vec<u8>) -> (r: Response)
        ensures
            r.status_view() == self.status_view(),
            r.headers_view() == self.headers_view(),
            r.body_view() == body@,
    {
        let mut r = self;
        r.body = body;
        r
    }

    /// Status code.
    pub fn status(&self) -> (r: u16)
        ensures
            r == self.status_view(),
    {
        self.status
    }

    /// Response headers.
    pub fn headers(&self) -> (r: &Headers)
        ensures
            r@ == self.headers_view(),
    {
        &self.headers
    }

    /// Mutable headers (middleware).
    pub fn headers_mut(&mut self) -> (r: &mut Headers)
        ensures
            r@ == old(self).headers_view(),
            final(self).status_view() == old(self).status_view(),
            final(self).body_view() == old(self).body_view(),
            final(self).headers_view() == final(r)@,
    {
        &mut self.headers
    }

    /// Raw body bytes.
    pub fn body(&self) -> (r: &[u8])
        ensures
            r@ == self.body_view(),
    {
        self.body.as_slice()
    }

    /// Body as text when it is valid UTF-8.
    pub fn body_str(&self) -> (r: Option<&str>)
        ensures
            r.is_some() == vstd::utf8::valid_utf8(self.body_view()),
            r matches Some(s) ==> s@ == vstd::utf8::decode_utf8(self.body_view()),
    {
        utf8_str(self.body.as_slice())
    }
}

} // verus!
