//! CSRF tokens: an intention id (usually a form name) and a value.

use vstd::prelude::*;

use crate::security::error::SecurityError;

verus! {

/// Default HTML field name carrying the CSRF token.
pub const CSRF_FIELD_NAME: &'static str = "_token";

/// A CSRF token for one intention.
#[derive(Clone, Debug, PartialEq, Eq)]
pub struct CsrfToken {
    id: String,
    value: String,
}

impl CsrfToken {
    pub closed spec fn id_view(&self) -> Seq<char> {
        self.id@
    }

    pub closed spec fn value_view(&self) -> Seq<char> {
        self.value@
    }

    /// Token `value` for intention `id`.
    pub fn new(id: &str, value: &str) -> (t: CsrfToken)
        ensures
            t.id_view() == id@,
            t.value_view() == value@,
    {
        CsrfToken { id: id.to_owned(), value: value.to_owned() }
    }

    /// Intention id.
    pub fn id(&self) -> (r: &str)
        ensures
            r@ == self.id_view(),
    {
        self.id.as_str()
    }

    /// Token text.
    pub fn value(&self) -> (r: &str)
        ensures
            r@ == self.value_view(),
    {
        self.value.as_str()
    }
}

/// Issues and checks CSRF tokens (apps choose the scheme).
pub trait CsrfTokenManager {
    /// Whether `r` is an answer this manager can give when asked for a token
    /// for intention `token_id` (by default, any answer).
    open spec fn issued(&self, token_id: Seq<char>, r: Result<CsrfToken, SecurityError>) -> bool {
        true
    }

    /// Whether `valid` is an answer this manager can give when asked to check
    /// `token` (by default, either answer).
    open spec fn checked(&self, token: CsrfToken, valid: bool) -> bool {
        true
    }

    /// A token for intention `token_id`.
    fn get_token(&self, token_id: &str) -> (r: Result<CsrfToken, SecurityError>)
        ensures
            self.issued(token_id@, r),
    ;

    /// Whether `token` is valid for its intention.
    fn is_token_valid(&self, token: &CsrfToken) -> (r: bool)
        ensures
            self.checked(*token, r),
    ;
}

} // verus!
