//! Form errors.

use vstd::prelude::*;

use crate::security::error::{security_error_text, SecurityError};
use crate::text::push_str;

verus! {

/// Failure while binding or rendering a form.
#[derive(Clone, Debug, PartialEq, Eq)]
pub enum FormError {
    /// The body is not valid `application/x-www-form-urlencoded` UTF-8.
    InvalidEncoding,
    /// CSRF token generation or validation failed.
    Csrf(SecurityError),
}

/// Text of an error.
pub open spec fn form_error_text(e: FormError) -> Seq<char> {
    match e {
        FormError::InvalidEncoding => "invalid form encoding"@,
        FormError::Csrf(inner) => "csrf: "@ + security_error_text(inner),
    }
}

impl FormError {
    /// Human-readable message.
    pub fn message(&self) -> (r: String)
        ensures
            r@ == form_error_text(*self),
    {
        let mut out = String::new();
        match self {
            FormError::InvalidEncoding => {
                push_str(&mut out, "invalid form encoding");
            },
            FormError::Csrf(inner) => {
                push_str(&mut out, "csrf: ");
                let m = inner.message();
                push_str(&mut out, m.as_str());
            },
        }
        out
    }
}

impl From<SecurityError> for FormError {
    fn from(e: SecurityError) -> (r: FormError) {
        FormError::Csrf(e)
    }
}

impl vstd::std_specs::convert::FromSpecImpl<SecurityError> for FormError {
    open spec fn obeys_from_spec() -> bool {
        true
    }

    open spec fn from_spec(e: SecurityError) -> FormError {
        FormError::Csrf(e)
    }
}

} // verus!
