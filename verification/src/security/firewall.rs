//! The request's security token and the authenticators that produce it.

use vstd::prelude::*;

use crate::http::attributes::{typed_get, Attribute, AttributeValue};
use crate::http::error::HttpError;
use crate::http::kernel::{Middleware, RequestHandler};
use crate::http::response::Response;
use crate::http::request::Request;
use crate::security::error::SecurityError;
use crate::security::user::UsernamePasswordToken;

verus! {

/// Request attribute key holding the security token.
pub const TOKEN_ATTRIBUTE: &'static str = "_security_token";

/// Turns raw credentials (a header value, when present) into a token.
pub trait Authenticator {
    /// Authenticated token for `credentials`, or why they were rejected.
    fn authenticate(&self, credentials: Option<&str>) -> Result<UsernamePasswordToken, SecurityError>;
}

/// The security token stored in the request's attributes.
pub open spec fn attr_token(request: Request) -> Option<UsernamePasswordToken> {
    typed_get::<UsernamePasswordToken>(request.attributes_view(), TOKEN_ATTRIBUTE@)
}

/// The request's security token, when one is set.
pub fn request_token(request: &Request) -> (r: Option<&UsernamePasswordToken>)
    ensures
        match r {
            Some(t) => attr_token(*request) == Some(*t),
            None => attr_token(*request) is None,
        },
{
    request.attributes().get::<UsernamePasswordToken>(TOKEN_ATTRIBUTE)
}

/// Middleware that authenticates the value of one request header and stores
/// the resulting token under [`TOKEN_ATTRIBUTE`]; a rejected request gets a
/// 401 error with the authenticator's message.
pub struct FirewallMiddleware<A: Authenticator> {
    header: String,
    authenticator: A,
}

impl<A: Authenticator> FirewallMiddleware<A> {
    pub closed spec fn header_view(&self) -> Seq<char> {
        self.header@
    }

    /// Firewall reading credentials from `header` (any case).
    pub fn new(header: &str, authenticator: A) -> (m: FirewallMiddleware<A>)
        ensures
            m.header_view() == header@,
    {
        FirewallMiddleware { header: header.to_owned(), authenticator }
    }

    /// Authenticates the request: stores the token on success, and on
    /// rejection leaves the request as it was and returns the 401 error.
    pub fn authenticate_request(&self, request: &mut Request) -> (r: Result<(), HttpError>)
        ensures
            final(request).method_view() == old(request).method_view(),
            final(request).path_view() == old(request).path_view(),
            final(request).headers_view() == old(request).headers_view(),
            match r {
                Ok(()) => exists|t: UsernamePasswordToken|
                    final(request).attributes_view() == old(request).attributes_view().insert(
                        TOKEN_ATTRIBUTE@,
                        AttributeValue::Token(t),
                    ),
                Err(e) => e.status_view() == 401 && final(request).attributes_view() == old(
                    request,
                ).attributes_view(),
            },
    {
        let outcome = {
            let credentials = request.headers().get(self.header.as_str());
            self.authenticator.authenticate(credentials)
        };
        match outcome {
            Ok(token) => {
                let ghost tv = token;
                request.attributes_mut().insert(TOKEN_ATTRIBUTE, token);
                assert(AttributeValue::Token(tv) == tv.wrap_spec());
                Ok(())
            },
            Err(e) => Err(HttpError::with_message(401, e.message())),
        }
    }
}

impl<A: Authenticator> Middleware for FirewallMiddleware<A> {
    /// Authenticates (see [`FirewallMiddleware::authenticate_request`]), then
    /// runs the rest of the chain.
    fn process(&self, request: &mut Request, next: &dyn RequestHandler) -> Result<Response, HttpError> {
        self.authenticate_request(request)?;
        next.handle(request)
    }
}

} // verus!
