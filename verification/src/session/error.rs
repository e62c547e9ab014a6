//! Session component errors.

use vstd::prelude::*;

use crate::text::push_str;

verus! {

/// Session id, store or id-generation failure.
#[derive(Clone, Debug, PartialEq, Eq)]
pub enum SessionError {
    /// The session id is empty.
    InvalidId {
        /// Offending id.
        id: String,
    },
    /// The store failed to load, save or delete.
    Store {
        /// Reason text.
        message: String,
    },
    /// The random generator failed while creating a session id.
    Generation,
}

/// Text of an error (`invalid session id ...`, `session store: ...`,
/// `session id generation failed`).
pub open spec fn session_error_text(e: SessionError) -> Seq<char> {
    match e {
        SessionError::InvalidId { id } => "invalid session id: "@ + id@,
        SessionError::Store { message } => "session store: "@ + message@,
        SessionError::Generation => "session id generation failed"@,
    }
}

impl SessionError {
    /// Human-readable message.
    pub fn message(&self) -> (r: String)
        ensures
            r@ == session_error_text(*self),
    {
        let mut out = String::new();
        match self {
            SessionError::InvalidId { id } => {
                push_str(&mut out, "invalid session id: ");
                push_str(&mut out, id.as_str());
            },
            SessionError::Store { message } => {
                push_str(&mut out, "session store: ");
                push_str(&mut out, message.as_str());
            },
            SessionError::Generation => {
                push_str(&mut out, "session id generation failed");
            },
        }
        out
    }
}

} // verus!
