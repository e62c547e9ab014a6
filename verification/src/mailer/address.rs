//! Mailbox addresses with an optional display name.

use vstd::prelude::*;

use crate::mailer::error::MailerError;
use crate::text::{chars_of, contains_char, push_str};

verus! {

/// A plausible mailbox: non-empty, with an `@` that is neither its first nor
/// its last character.
pub open spec fn plausible_mailbox(s: Seq<char>) -> bool {
    s.len() > 0 && s.contains('@') && s[0] != '@' && s.last() != '@'
}

/// Message of the error for an implausible mailbox.
pub open spec fn invalid_mailbox_text(s: Seq<char>) -> Seq<char> {
    "`"@ + s + "` is not a mailbox"@
}

/// Mailbox with an optional display name.
#[derive(Clone, Debug, PartialEq, Eq)]
pub struct Address {
    email: String,
    name: Option<String>,
}

impl Address {
    pub closed spec fn email_view(&self) -> Seq<char> {
        self.email@
    }

    pub closed spec fn name_view(&self) -> Option<Seq<char>> {
        match self.name {
            Some(n) => Some(n@),
            None => None,
        }
    }

    /// Address without display name; see [`Address::with_name`].
    pub fn new(email: &str) -> (r: Result<Address, MailerError>)
        ensures
            match r {
                Ok(a) => plausible_mailbox(email@) && a.email_view() == email@ && a.name_view() is None,
                Err(e) => !plausible_mailbox(email@) && (e matches MailerError::InvalidAddress {
                    message,
                } && message@ == invalid_mailbox_text(email@)),
            },
    {
        Address::with_name(email, None)
    }

    /// Address `email` shown as `name`; refused with
    /// [`MailerError::InvalidAddress`] unless `email` is a plausible mailbox.
    pub fn with_name(email: &str, name: Option<&str>) -> (r: Result<Address, MailerError>)
        ensures
            match r {
                Ok(a) => plausible_mailbox(email@) && a.email_view() == email@ && match name {
                    Some(n) => a.name_view() == Some(n@),
                    None => a.name_view() is None,
                },
                Err(e) => !plausible_mailbox(email@) && (e matches MailerError::InvalidAddress {
                    message,
                } && message@ == invalid_mailbox_text(email@)),
            },
    {
        let v = chars_of(email);
        let ok = v.len() > 0 && contains_char(&v, '@') && v[0] != '@' && v[v.len() - 1] != '@';
        if !ok {
            let mut message = String::new();
            push_str(&mut message, "`");
            push_str(&mut message, email);
            push_str(&mut message, "` is not a mailbox");
            return Err(MailerError::InvalidAddress { message });
        }
        let n = match name {
            Some(n) => Some(n.to_owned()),
            None => None,
        };
        Ok(Address { email: email.to_owned(), name: n })
    }

    /// Mailbox text.
    pub fn email(&self) -> (r: &str)
        ensures
            r@ == self.email_view(),
    {
        self.email.as_str()
    }

    /// Display name, when set.
    pub fn name(&self) -> (r: Option<&str>)
        ensures
            match r {
                Some(n) => self.name_view() == Some(n@),
                None => self.name_view() is None,
            },
    {
        match &self.name {
            Some(n) => Some(n.as_str()),
            None => None,
        }
    }
}

} // verus!
