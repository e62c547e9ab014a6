//! Users and security tokens.

use vstd::prelude::*;

use crate::text::{clone_strings, strings_view};

verus! {

/// Authenticated (or anonymous) principal.
pub trait UserInterface {
    /// Stable user identifier (login, UUID, ...).
    fn user_identifier(&self) -> &str;

    /// Role names granted to this user.
    fn roles(&self) -> &[String];
}

/// Simple in-memory user for apps and tests.
#[derive(Clone, Debug, PartialEq, Eq)]
pub struct InMemoryUser {
    id: String,
    roles: Vec<String>,
}

impl InMemoryUser {
    /// The user's identifier.
    pub closed spec fn id_view(&self) -> Seq<char> {
        self.id@
    }

    /// The user's role names, in order.
    pub closed spec fn roles_view(&self) -> Seq<Seq<char>> {
        strings_view(self.roles@)
    }

    /// User `id` with `roles`.
    pub fn new(id: &str, roles: Vec<String>) -> (u: InMemoryUser)
        ensures
            u.id_view() == id@,
            u.roles_view() == strings_view(roles@),
    {
        InMemoryUser { id: id.to_owned(), roles }
    }

    /// A copy of this user.
    pub fn duplicate(&self) -> (u: InMemoryUser)
        ensures
            u.id_view() == self.id_view(),
            u.roles_view() == self.roles_view(),
    {
        InMemoryUser { id: self.id.clone(), roles: clone_strings(&self.roles) }
    }
}

impl UserInterface for InMemoryUser {
    fn user_identifier(&self) -> (r: &str)
        ensures
            r@ == self.id_view(),
    {
        self.id.as_str()
    }

    fn roles(&self) -> (r: &[String])
        ensures
            strings_view(r@) == self.roles_view(),
    {
        self.roles.as_slice()
    }
}

/// Security token carrying credentials and an optional user.
pub trait TokenInterface {
    /// Type of the user a token carries.
    type User: UserInterface;

    /// Whether authentication succeeded.
    fn is_authenticated(&self) -> bool;

    /// Authenticated user when present.
    fn user(&self) -> Option<&Self::User>;

    /// Raw credentials string when present (bearer, API key, ...).
    fn credentials(&self) -> Option<&str>;
}

/// Username/password-style token (also used for bearer and API-key strings).
#[derive(Clone, Debug)]
pub struct UsernamePasswordToken {
    user: Option<InMemoryUser>,
    credentials: Option<String>,
    authenticated: bool,
}

impl UsernamePasswordToken {
    pub closed spec fn authenticated_view(&self) -> bool {
        self.authenticated
    }

    pub closed spec fn user_view(&self) -> Option<InMemoryUser> {
        self.user
    }

    pub closed spec fn credentials_view(&self) -> Option<Seq<char>> {
        match self.credentials {
            Some(c) => Some(c@),
            None => None,
        }
    }

    /// Anonymous unauthenticated token.
    pub fn anonymous() -> (t: UsernamePasswordToken)
        ensures
            !t.authenticated_view(),
            t.user_view() is None,
            t.credentials_view() is None,
    {
        UsernamePasswordToken { user: None, credentials: None, authenticated: false }
    }

    /// Authenticated token for `user`, echoing `credentials`.
    pub fn authenticated(user: InMemoryUser, credentials: &str) -> (t: UsernamePasswordToken)
        ensures
            t.authenticated_view(),
            t.user_view() == Some(user),
            t.credentials_view() == Some(credentials@),
    {
        UsernamePasswordToken {
            user: Some(user),
            credentials: Some(credentials.to_owned()),
            authenticated: true,
        }
    }

    /// Authenticated flag with no user: a malformed token, which login treats
    /// as anonymous.
    pub fn authenticated_without_user() -> (t: UsernamePasswordToken)
        ensures
            t.authenticated_view(),
            t.user_view() is None,
            t.credentials_view() is None,
    {
        UsernamePasswordToken { user: None, credentials: None, authenticated: true }
    }
}

impl TokenInterface for UsernamePasswordToken {
    type User = InMemoryUser;

    fn is_authenticated(&self) -> (r: bool)
        ensures
            r == self.authenticated_view(),
    {
        self.authenticated
    }

    fn user(&self) -> (r: Option<&InMemoryUser>)
        ensures
            match r {
                Some(u) => self.user_view() == Some(*u),
                None => self.user_view() is None,
            },
    {
        match &self.user {
            Some(u) => Some(u),
            None => None,
        }
    }

    fn credentials(&self) -> (r: Option<&str>)
        ensures
            match r {
                Some(c) => self.credentials_view() == Some(c@),
                None => self.credentials_view() is None,
            },
    {
        match &self.credentials {
            Some(c) => Some(c.as_str()),
            None => None,
        }
    }
}

} // verus!
