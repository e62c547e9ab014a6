//! HTTP-level error carrying a status code and a message.

use vstd::prelude::*;

use crate::text::{chars_of, push_chars, push_str, string_of, u64_to_decimal, decimal};

verus! {

/// Failure that maps onto an HTTP status code.
#[derive(Clone, Debug, PartialEq, Eq)]
pub struct HttpError {
    status: u16,
    message: String,
}

/// `HTTP <status>: <message>`.
pub open spec fn http_error_text(status: u16, message: Seq<char>) -> Seq<char> {
    seq!['H', 'T', 'T', 'P', ' '] + decimal(status as nat) + seq![':', ' '] + message
}

impl HttpError {
    /// Status code of the error.
    pub closed spec fn status_view(&self) -> u16 {
        self.status
    }

    /// Message of the error.
    pub closed spec fn message_view(&self) -> Seq<char> {
        self.message@
    }

    /// Error with `status` and `message`.
    pub fn status(status: u16, message: &str) -> (e: HttpError)
        ensures
            e.status_view() == status,
            e.message_view() == message@,
    {
        HttpError { status, message: message.to_owned() }
    }

    /// Error with `status` and an owned `message`.
    pub fn with_message(status: u16, message: String) -> (e: HttpError)
        ensures
            e.status_view() == status,
            e.message_view() == message@,
    {
        HttpError { status, message }
    }

    /// Internal failure (500).
    pub fn failed(message: &str) -> (e: HttpError)
        ensures
            e.status_view() == 500,
            e.message_view() == message@,
    {
        HttpError::status(500, message)
    }

    /// Not found (404).
    pub fn not_found(message: &str) -> (e: HttpError)
        ensures
            e.status_view() == 404,
            e.message_view() == message@,
    {
        HttpError::status(404, message)
    }

    /// Bad request (400).
    pub fn bad_request(message: &str) -> (e: HttpError)
        ensures
            e.status_view() == 400,
            e.message_view() == message@,
    {
        HttpError::status(400, message)
    }

    /// Unprocessable entity (422).
    pub fn unprocessable(message: &str) -> (e: HttpError)
        ensures
            e.status_view() == 422,
            e.message_view() == message@,
    {
        HttpError::status(422, message)
    }

    /// Status code.
    pub fn status_code(&self) -> (r: u16)
        ensures
            r == self.status_view(),
    {
        self.status
    }

    /// Message text.
    pub fn message(&self) -> (r: &str)
        ensures
            r@ == self.message_view(),
    {
        self.message.as_str()
    }

    /// Human-readable form: `HTTP <status>: <message>`.
    pub fn describe(&self) -> (r: String)
        ensures
            r@ == http_error_text(self.status_view(), self.message_view()),
    {
        let mut out = String::new();
        push_str(&mut out, "HTTP ");
        let digits = u64_to_decimal(self.status as u64);
        push_chars(&mut out, &digits);
        push_str(&mut out, ": ");
        push_str(&mut out, self.message.as_str());
        proof {
            reveal_strlit("HTTP ");
            reveal_strlit(": ");
        }
        assert(out@ =~= http_error_text(self.status, self.message@));
        out
    }
}

} // verus!
