use std::sync::Arc;

use serenade::http::error::HttpError;
use serenade::http::kernel::{HttpKernel, RequestHandler};
use serenade::http::method::Method;
use serenade::http::request::Request;
use serenade::http::response::Response;
use serenade::security::error::SecurityError;
use serenade::security::firewall::{request_token, Authenticator, FirewallMiddleware, TOKEN_ATTRIBUTE};
use serenade::security::password::{hash_password_with_salt, Argon2idPasswordHasher, PasswordHasher};
use serenade::security::session_bridge::{
    decode_identity, encode_identity, login, logout, restore_token_attribute, split_unescaped,
    token_from_session, unescape, AsyncSessionTokenMiddleware, SessionTokenMiddleware,
    SECURITY_SESSION_KEY,
};
use serenade::security::user::{InMemoryUser, TokenInterface, UserInterface, UsernamePasswordToken};
use serenade::session::cookie::CookieSession;
use serenade::session::middleware::{request_session_mut, SessionMiddleware};
use serenade::session::session::Session;
use serenade::session::store::MemorySessionStore;

#[test]
fn login_logout_roundtrip_and_escape() {
    let mut session = Session::new("s1");
    let token = UsernamePasswordToken::authenticated(
        InMemoryUser::new(
            "alice",
            vec![String::from("ROLE_USER"), String::from("a|b")],
        ),
        "secret-should-not-persist",
    );
    login(&mut session, &token);
    let restored = token_from_session(&session).expect("token");
    assert!(restored.is_authenticated());
    assert_eq!(restored.user().expect("user").user_identifier(), "alice");
    assert_eq!(
        restored.user().expect("user").roles(),
        &[String::from("ROLE_USER"), String::from("a|b")]
    );
    assert_eq!(restored.credentials(), Some(""));
    logout(&mut session);
    assert!(token_from_session(&session).is_none());
    assert!(session.get(SECURITY_SESSION_KEY).is_none());
}

#[test]
fn login_anonymous_clears_and_decode_rejects_empty_id() {
    let mut session = Session::new("s2");
    login(
        &mut session,
        &UsernamePasswordToken::authenticated(
            InMemoryUser::new("bob", vec![String::from("ROLE_ADMIN")]),
            "",
        ),
    );
    login(&mut session, &UsernamePasswordToken::anonymous());
    assert!(token_from_session(&session).is_none());
    assert!(decode_identity("\nROLE_USER").is_none());
    assert!(decode_identity("").is_none());
    assert_eq!(encode_identity("u", &[]), "u\n");
    assert_eq!(
        decode_identity("id\\nline\nrole\\|x|ok").expect("decode"),
        (
            String::from("id\nline"),
            vec![String::from("role|x"), String::from("ok")]
        )
    );
    assert_eq!(unescape("\\ztrail\\"), "\\ztrail\\");
    assert_eq!(unescape("\\\\"), "\\");
}

#[test]
fn login_with_empty_user_id_stores_nothing_readable() {
    let mut session = Session::new("s4");
    login(
        &mut session,
        &UsernamePasswordToken::authenticated(InMemoryUser::new("", vec![String::from("R")]), "x"),
    );
    assert_eq!(session.get(SECURITY_SESSION_KEY), Some("\nR"));
    assert!(token_from_session(&session).is_none());
}

#[test]
fn split_keeps_escape_pairs() {
    assert_eq!(
        split_unescaped("a\\|b|c||\\", '|'),
        vec![
            String::from("a\\|b"),
            String::from("c"),
            String::new(),
            String::from("\\")
        ]
    );
    assert_eq!(split_unescaped("", '|'), vec![String::new()]);
}

struct FixedAuthenticator;

impl Authenticator for FixedAuthenticator {
    fn authenticate(
        &self,
        credentials: Option<&str>,
    ) -> Result<UsernamePasswordToken, SecurityError> {
        if credentials == Some("yes") {
            Ok(UsernamePasswordToken::authenticated(
                InMemoryUser::new("dave", vec![String::from("ROLE_ADMIN")]),
                "yes",
            ))
        } else {
            Err(SecurityError::Authentication {
                message: String::from("no"),
            })
        }
    }
}

struct SeedLogin;

impl RequestHandler for SeedLogin {
    fn handle(&self, request: &mut Request) -> Result<Response, HttpError> {
        let session = request_session_mut(request).expect("session");
        login(
            session,
            &UsernamePasswordToken::authenticated(
                InMemoryUser::new("carol", vec![String::from("ROLE_USER")]),
                "",
            ),
        );
        Ok(Response::text(200, "seed"))
    }
}

struct ExpectUser(&'static str);

impl RequestHandler for ExpectUser {
    fn handle(&self, request: &mut Request) -> Result<Response, HttpError> {
        let token = request_token(request).expect("token");
        assert_eq!(token.user().expect("user").user_identifier(), self.0);
        Ok(Response::text(200, "ok"))
    }
}

#[test]
fn session_token_middleware_restores_without_overwriting() {
    let store = Arc::new(MemorySessionStore::new());
    let cookies = CookieSession::new(store);
    let mut seed = HttpKernel::new(SeedLogin);
    seed.push_middleware(SessionMiddleware::new(cookies.clone()));
    let set_cookie = seed
        .handle(Request::new(Method::Get, "/"))
        .headers()
        .get("set-cookie")
        .expect("cookie")
        .to_owned();

    let mut kernel = HttpKernel::new(ExpectUser("carol"));
    kernel.push_middleware(SessionMiddleware::new(cookies.clone()));
    kernel.push_middleware(SessionTokenMiddleware::new());
    let response = kernel.handle(Request::new(Method::Get, "/").with_header("cookie", &set_cookie));
    assert_eq!(response.status(), 200);

    let mut overwrite = HttpKernel::new(ExpectUser("dave"));
    overwrite.push_middleware(SessionMiddleware::new(cookies));
    overwrite.push_middleware(SessionTokenMiddleware);
    overwrite.push_middleware(FirewallMiddleware::new("Authorization", FixedAuthenticator));
    let response = overwrite.handle(
        Request::new(Method::Get, "/")
            .with_header("cookie", &set_cookie)
            .with_header("Authorization", "yes"),
    );
    assert_eq!(response.status(), 200);
}

struct ExpectNoToken;

impl RequestHandler for ExpectNoToken {
    fn handle(&self, request: &mut Request) -> Result<Response, HttpError> {
        assert!(request_token(request).is_none());
        Ok(Response::text(200, "anon"))
    }
}

#[test]
fn restore_skips_without_session_or_identity() {
    let mut request = Request::new(Method::Get, "/");
    restore_token_attribute(&mut request);
    assert!(request_token(&request).is_none());

    let mut kernel = HttpKernel::new(ExpectNoToken);
    let cookies = CookieSession::new(Arc::new(MemorySessionStore::new()));
    kernel.push_middleware(SessionMiddleware::new(cookies));
    kernel.push_middleware(SessionTokenMiddleware);
    assert_eq!(kernel.handle(Request::new(Method::Get, "/")).status(), 200);
}

#[test]
fn login_authenticated_without_user_clears() {
    let mut session = Session::new("s3");
    login(
        &mut session,
        &UsernamePasswordToken::authenticated(InMemoryUser::new("keep", Vec::new()), ""),
    );
    login(
        &mut session,
        &UsernamePasswordToken::authenticated_without_user(),
    );
    assert!(token_from_session(&session).is_none());
}

#[test]
fn encode_escapes_backslash_and_newline_in_id() {
    let encoded = encode_identity("a\\b\nc", &[String::from("r")]);
    assert_eq!(
        decode_identity(&encoded).expect("decode"),
        (String::from("a\\b\nc"), vec![String::from("r")])
    );
    assert_eq!(
        decode_identity("u\n|ROLE|").expect("empty roles filtered"),
        (String::from("u"), vec![String::from("ROLE")])
    );
    assert_eq!(
        decode_identity("u\ntrail\\").expect("trailing backslash"),
        (String::from("u"), vec![String::from("trail\\")])
    );
}

#[test]
fn session_token_middleware_skips_when_token_already_set() {
    let cookies = CookieSession::new(Arc::new(MemorySessionStore::new()));
    let mut session = Session::new("pre");
    login(
        &mut session,
        &UsernamePasswordToken::authenticated(InMemoryUser::new("from-session", Vec::new()), ""),
    );
    let set = cookies.commit(&session).expect("commit").expect("cookie");

    let mut kernel = HttpKernel::new(ExpectUser("dave"));
    kernel.push_middleware(SessionMiddleware::new(cookies));
    kernel.push_middleware(FirewallMiddleware::new("Authorization", FixedAuthenticator));
    kernel.push_middleware(SessionTokenMiddleware);
    let response = kernel.handle(
        Request::new(Method::Get, "/")
            .with_header("cookie", &set)
            .with_header("Authorization", "yes"),
    );
    assert_eq!(response.status(), 200);
}

#[test]
fn middleware_constructors() {
    let _ = SessionTokenMiddleware::new();
    let _ = AsyncSessionTokenMiddleware::new();
    assert!(FixedAuthenticator.authenticate(None).is_err());
}

#[test]
fn firewall_rejects_with_401() {
    let mut kernel = HttpKernel::new(ExpectNoToken);
    kernel.push_middleware(FirewallMiddleware::new("Authorization", FixedAuthenticator));
    let response = kernel.handle(Request::new(Method::Get, "/"));
    assert_eq!(response.status(), 401);
    assert_eq!(response.body_str(), Some("authentication failed: no"));
    let mut request = Request::new(Method::Get, "/").with_header("authorization", "yes");
    FirewallMiddleware::new("Authorization", FixedAuthenticator)
        .authenticate_request(&mut request)
        .expect("authenticated");
    assert!(request.attributes().contains(TOKEN_ATTRIBUTE));
}

#[test]
fn security_error_messages() {
    assert_eq!(
        SecurityError::AccessDenied { message: String::from("x") }.message(),
        "access denied: x"
    );
    assert_eq!(SecurityError::InvalidCsrfToken.message(), "invalid CSRF token");
}

#[test]
fn hash_verify_roundtrip_and_reject_wrong() {
    let hasher = Argon2idPasswordHasher::new();
    let encoded = hasher.hash("correct horse").expect("hash");
    assert!(encoded.starts_with("$argon2id$"));
    assert!(hasher.verify(&encoded, "correct horse").expect("ok"));
    assert!(!hasher.verify(&encoded, "wrong").expect("mismatch"));
    assert_ne!(hasher.hash("correct horse").expect("again"), encoded);
}

#[test]
fn empty_plain_rejected_and_bad_hash_errors() {
    let hasher = Argon2idPasswordHasher;
    assert!(matches!(
        hasher.hash(""),
        Err(SecurityError::Password { .. })
    ));
    assert!(matches!(
        hasher.verify("not-a-phc", "x"),
        Err(SecurityError::Password { .. })
    ));
}

#[test]
fn hash_maps_argon2_errors_for_short_salt() {
    // A 6-byte salt is a valid B64 salt string, but Argon2 wants at least 8 bytes.
    let salt = "AAAAAAAA";
    assert!(matches!(
        hash_password_with_salt("secret", salt),
        Err(SecurityError::Password { .. })
    ));
}

#[test]
fn hash_with_fixed_salt_is_argon2id_phc() {
    let salt = "c2FsdHNhbHRzYWx0";
    let first = hash_password_with_salt("secret", salt).expect("hash");
    let again = hash_password_with_salt("secret", salt).expect("hash");
    assert!(first.starts_with("$argon2id$"));
    assert_eq!(first, again);
    let hasher = Argon2idPasswordHasher::new();
    assert!(hasher.verify(&first, "secret").expect("phc"));
    assert!(!hasher.verify(&first, "other").expect("phc"));
}

#[test]
fn salt_text_refused_by_the_hasher_is_a_password_error() {
    assert!(matches!(
        hash_password_with_salt("secret", "not b64!"),
        Err(SecurityError::Password { .. })
    ));
}
