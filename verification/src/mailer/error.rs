//! Mailer errors.

use vstd::prelude::*;

use crate::text::push_str;

verus! {

/// Failure while building or sending an email.
#[derive(Clone, Debug, PartialEq, Eq)]
pub enum MailerError {
    /// The address is empty or not a plausible mailbox.
    InvalidAddress {
        /// Reason text.
        message: String,
    },
    /// The message has no sender.
    MissingSender,
    /// The message has no recipient (to, cc or bcc).
    MissingRecipient,
    /// Writing the message failed.
    Io {
        /// Reason text.
        message: String,
    },
    /// Building or delivering the message through the transport failed.
    Transport {
        /// Reason text.
        message: String,
    },
}

/// Text of an error.
pub open spec fn mailer_error_text(e: MailerError) -> Seq<char> {
    match e {
        MailerError::InvalidAddress { message } => "invalid address: "@ + message@,
        MailerError::MissingSender => "email has no sender"@,
        MailerError::MissingRecipient => "email has no recipient"@,
        MailerError::Io { message } => "mailer i/o: "@ + message@,
        MailerError::Transport { message } => "mailer transport: "@ + message@,
    }
}

impl MailerError {
    /// Human-readable message.
    pub fn message(&self) -> (r: String)
        ensures
            r@ == mailer_error_text(*self),
    {
        let mut out = String::new();
        match self {
            MailerError::InvalidAddress { message } => {
                push_str(&mut out, "invalid address: ");
                push_str(&mut out, message.as_str());
            },
            MailerError::MissingSender => {
                push_str(&mut out, "email has no sender");
            },
            MailerError::MissingRecipient => {
                push_str(&mut out, "email has no recipient");
            },
            MailerError::Io { message } => {
                push_str(&mut out, "mailer i/o: ");
                push_str(&mut out, message.as_str());
            },
            MailerError::Transport { message } => {
                push_str(&mut out, "mailer transport: ");
                push_str(&mut out, message.as_str());
            },
        }
        out
    }
}

} // verus!
