//! Admin errors.

use vstd::prelude::*;

use crate::text::push_str;

verus! {

/// Failure while configuring or running admin CRUD.
#[derive(Clone, Debug, PartialEq, Eq)]
pub enum AdminError {
    /// Two resources share the same name.
    DuplicateResource {
        /// Resource name.
        name: String,
    },
    /// The app's handler reported a missing entity.
    NotFound {
        /// Entity id.
        id: String,
    },
    /// The app's handler or repository failed.
    Persist {
        /// Reason text.
        message: String,
    },
}

/// Text of an error.
pub open spec fn admin_error_text(e: AdminError) -> Seq<char> {
    match e {
        AdminError::DuplicateResource { name } => "admin resource `"@ + name@
            + "` is already registered"@,
        AdminError::NotFound { id } => "admin entity `"@ + id@ + "` not found"@,
        AdminError::Persist { message } => "admin persist: "@ + message@,
    }
}

impl AdminError {
    /// Human-readable message.
    pub fn message(&self) -> (r: String)
        ensures
            r@ == admin_error_text(*self),
    {
        let mut out = String::new();
        match self {
            AdminError::DuplicateResource { name } => {
                push_str(&mut out, "admin resource `");
                push_str(&mut out, name.as_str());
                push_str(&mut out, "` is already registered");
            },
            AdminError::NotFound { id } => {
                push_str(&mut out, "admin entity `");
                push_str(&mut out, id.as_str());
                push_str(&mut out, "` not found");
            },
            AdminError::Persist { message } => {
                push_str(&mut out, "admin persist: ");
                push_str(&mut out, message.as_str());
            },
        }
        out
    }
}

} // verus!
