//! Security component errors.

use vstd::prelude::*;

use crate::text::push_str;

verus! {

/// Authentication, authorization, CSRF or password failure.
#[derive(Clone, Debug, PartialEq, Eq)]
pub enum SecurityError {
    /// The authenticator rejected the credentials.
    Authentication {
        /// Reason text.
        message: String,
    },
    /// The access decision denied the subject.
    AccessDenied {
        /// Reason text.
        message: String,
    },
    /// The CSRF token is missing, malformed or invalid.
    InvalidCsrfToken,
    /// The random generator failed while creating a CSRF token.
    CsrfGeneration,
    /// Hashing or verifying a password failed.
    Password {
        /// Underlying message.
        message: String,
    },
}

/// Text of an error.
pub open spec fn security_error_text(e: SecurityError) -> Seq<char> {
    match e {
        SecurityError::Authentication { message } => "authentication failed: "@ + message@,
        SecurityError::AccessDenied { message } => "access denied: "@ + message@,
        SecurityError::InvalidCsrfToken => "invalid CSRF token"@,
        SecurityError::CsrfGeneration => "CSRF token generation failed"@,
        SecurityError::Password { message } => "password error: "@ + message@,
    }
}

impl SecurityError {
    /// Human-readable message.
    pub fn message(&self) -> (r: String)
        ensures
            r@ == security_error_text(*self),
    {
        let mut out = String::new();
        match self {
            SecurityError::Authentication { message } => {
                push_str(&mut out, "authentication failed: ");
                push_str(&mut out, message.as_str());
            },
            SecurityError::AccessDenied { message } => {
                push_str(&mut out, "access denied: ");
                push_str(&mut out, message.as_str());
            },
            SecurityError::InvalidCsrfToken => {
                push_str(&mut out, "invalid CSRF token");
            },
            SecurityError::CsrfGeneration => {
                push_str(&mut out, "CSRF token generation failed");
            },
            SecurityError::Password { message } => {
                push_str(&mut out, "password error: ");
                push_str(&mut out, message.as_str());
            },
        }
        out
    }
}

} // verus!
