use std::sync::Arc;

use serenade::http::error::HttpError;
use serenade::http::kernel::{HttpKernel, RequestHandler};
use serenade::http::method::Method;
use serenade::http::request::Request;
use serenade::http::response::Response;
use serenade::session::cookie::{
    commit_plan, generate_session_id, parse_cookie_value, resume_session, CommitPlan,
    CookieSession, CookieSessionOptions,
    SameSite,
    DEFAULT_SESSION_COOKIE,
};
use serenade::session::error::SessionError;
use serenade::session::flash::{decode, encode, escape, unescape, FLASH_SESSION_KEY};
use serenade::session::map::StringMap;
use serenade::session::middleware::{
    request_session, request_session_mut, AsyncSessionMiddleware, SessionMiddleware,
    SESSION_ATTRIBUTE,
};
use serenade::session::session::Session;
use serenade::session::store::{MemorySessionStore, SessionStore};

#[test]
fn lib_version_is_non_empty() {
    assert_ne!(serenade::version(), "");
}

#[test]
fn bag_set_get_remove_clear() {
    let mut session = Session::new("abc");
    assert!(session.is_new());
    assert_eq!(session.id(), "abc");
    session.set("user", "42");
    assert_eq!(session.get("user"), Some("42"));
    assert!(!session.attributes().is_empty());
    assert_eq!(session.remove("user"), Some(String::from("42")));
    assert!(session.get("user").is_none());
    assert!(session.remove("missing").is_none());
    session.clear();
    session.set("a", "1");
    session.clear();
    assert!(session.get("a").is_none());
}

#[test]
fn memory_store_roundtrip_and_delete() {
    let store = MemorySessionStore::new();
    let mut map = StringMap::new();
    map.insert(String::from("k"), String::from("v"));
    store.save("s1", &map).expect("save");
    assert_eq!(
        store.load("s1").expect("load").as_ref().map(|m| m.get("k")),
        Some(Some(&String::from("v")))
    );
    store.delete("s1").expect("delete");
    assert!(store.load("s1").expect("load").is_none());
    assert!(matches!(store.load(""), Err(SessionError::InvalidId { .. })));
}

#[test]
fn cookie_session_open_commit_reload() {
    let store = Arc::new(MemorySessionStore::new());
    let cookies = CookieSession::with_options(
        store,
        CookieSessionOptions::new()
            .with_name("SID")
            .with_secure(true)
            .with_same_site(SameSite::Strict)
            .with_max_age_secs(Some(3600)),
    );
    let mut session = cookies.open(None).expect("open");
    assert!(session.is_new());
    session.set("cart", "1");
    let set_cookie = cookies.commit(&session).expect("commit").expect("header");
    assert!(set_cookie.starts_with("SID="));
    assert!(set_cookie.contains("HttpOnly"));
    assert!(set_cookie.contains("Secure"));
    assert!(set_cookie.contains("SameSite=Strict"));
    assert!(set_cookie.contains("Max-Age=3600"));

    let id = session.id().to_owned();
    let header = format!("SID={id}; other=x");
    let loaded = cookies.open(Some(&header)).expect("reopen");
    assert!(!loaded.is_new());
    assert_eq!(loaded.get("cart"), Some("1"));
    assert!(cookies.commit(&loaded).expect("noop").is_none());
}

#[test]
fn invalidate_clears_store_and_cookie() {
    let store = Arc::new(MemorySessionStore::new());
    let cookies = CookieSession::new(Arc::clone(&store) as Arc<dyn SessionStore>);
    let mut session = cookies.open(None).expect("open");
    session.set("x", "1");
    cookies.commit(&session).expect("commit").expect("set");
    let header = format!("{DEFAULT_SESSION_COOKIE}={}", session.id());
    let mut again = cookies.open(Some(&header)).expect("load");
    assert_eq!(again.get("x"), Some("1"));
    again.invalidate();
    let clear = cookies.commit(&again).expect("clear").expect("expire");
    assert!(clear.contains("Max-Age=0"));
    assert!(store.load(session.id()).expect("load").is_none());
}

#[test]
fn stale_cookie_gets_new_id() {
    let store = Arc::new(MemorySessionStore::new());
    let cookies = CookieSession::new(store);
    let session = cookies
        .open(Some(&format!("{DEFAULT_SESSION_COOKIE}=deadbeef")))
        .expect("open");
    assert!(session.is_new());
    assert_ne!(session.id(), "deadbeef");
}

#[test]
fn parse_cookie_and_generate_id() {
    assert_eq!(
        parse_cookie_value("a=1; SERENADE_SESSION=abc; b=2", DEFAULT_SESSION_COOKIE),
        Some(String::from("abc"))
    );
    assert!(parse_cookie_value("a=1", DEFAULT_SESSION_COOKIE).is_none());
    assert!(parse_cookie_value("lonely; SERENADE_SESSION=z", DEFAULT_SESSION_COOKIE).is_some());
    let id = generate_session_id().expect("rng");
    assert_eq!(id.len(), 64);
    assert!(id.chars().all(|c| c.is_ascii_hexdigit()));
}

#[test]
fn options_accessor() {
    let store = Arc::new(MemorySessionStore::new());
    let cookies = CookieSession::with_options(store, CookieSessionOptions::new().with_name("X"));
    assert_eq!(cookies.options().name(), "X");
}

#[test]
fn same_site_none_and_path() {
    let store = Arc::new(MemorySessionStore::new());
    let cookies = CookieSession::with_options(
        store,
        CookieSessionOptions::new()
            .with_path("/app")
            .with_http_only(false)
            .with_same_site(SameSite::NoRestriction)
            .with_secure(true),
    );
    let mut session = cookies.open(None).expect("open");
    session.set("k", "v");
    let header = cookies.commit(&session).expect("commit").expect("set");
    assert!(header.contains("Path=/app"));
    assert!(!header.contains("HttpOnly"));
    assert!(header.contains("SameSite=None"));
}

#[test]
fn add_peek_get_consume_and_clear() {
    let mut session = Session::new("s");
    {
        let mut flash = session.flash();
        flash.add("success", "Saved");
        flash.add("success", "Also");
        flash.add("error", "Nope");
        assert_eq!(flash.peek("success"), vec!["Saved", "Also"]);
        assert!(!flash.is_empty());
        assert_eq!(flash.get("success"), vec!["Saved", "Also"]);
        assert_eq!(flash.peek("success"), Vec::<String>::new());
        assert_eq!(flash.peek("error"), vec!["Nope"]);
    }
    assert!(session.get(FLASH_SESSION_KEY).is_some());
    {
        let mut flash = session.flash();
        let all = flash.all();
        assert_eq!(all.get("error"), Some(&vec![String::from("Nope")]));
        assert!(flash.is_empty());
    }
    assert!(session.get(FLASH_SESSION_KEY).is_none());

    let mut session = Session::new("s2");
    session.flash().add("info", "hi");
    session.flash().clear();
    assert!(session.flash().is_empty());
}

#[test]
fn empty_kind_ignored_and_roundtrip_escapes() {
    let mut session = Session::new("s");
    session.flash().add("", "x");
    assert!(session.flash().is_empty());

    session.flash().add("a|b", "line\nwith|pipe\\");
    let peeked = session.flash().peek("a|b");
    assert_eq!(peeked, vec!["line\nwith|pipe\\"]);

    let encoded = encode(&session.flash().peek_all());
    let decoded = decode(&encoded);
    assert_eq!(
        decoded.get("a|b"),
        Some(&vec![String::from("line\nwith|pipe\\")])
    );

    assert_eq!(unescape(&escape("a|b\\c\nd\r")), "a|b\\c\nd\r");
    assert!(decode("nonsplit").is_empty());
    assert!(decode("\n").is_empty());
    assert!(decode("|orphan").is_empty());
    assert_eq!(unescape("trail\\"), "trail\\");
    assert_eq!(unescape("\\z"), "\\z");
}

#[test]
fn flash_text_is_sorted_by_kind() {
    let mut session = Session::new("s");
    session.flash().add("warning", "w");
    session.flash().add("error", "e1");
    session.flash().add("error", "e2");
    assert_eq!(
        session.get(FLASH_SESSION_KEY),
        Some("error|e1\nerror|e2\nwarning|w\n")
    );
    let decoded = decode("error|e1\r\nwarning|w");
    assert_eq!(decoded.get("error"), Some(&vec![String::from("e1")]));
    assert_eq!(decoded.get("warning"), Some(&vec![String::from("w")]));
    assert_eq!(decoded.len(), 2);
}

#[test]
fn survives_session_attribute_reload() {
    let mut session = Session::new("s");
    session.flash().add("notice", "Hello");
    let attrs = session.attributes().clone();
    let mut reloaded = Session::existing("s", attrs);
    assert_eq!(reloaded.flash().get("notice"), vec!["Hello"]);
    assert!(reloaded.flash().is_empty());
}

struct SetUserAndFlash;

impl RequestHandler for SetUserAndFlash {
    fn handle(&self, request: &mut Request) -> Result<Response, HttpError> {
        assert!(request.attributes().contains(SESSION_ATTRIBUTE));
        let session = request_session_mut(request).expect("session");
        session.set("user", "42");
        session.flash().add("success", "Saved");
        Ok(Response::text(200, "ok"))
    }
}

struct ReadUserAndFlash;

impl RequestHandler for ReadUserAndFlash {
    fn handle(&self, request: &mut Request) -> Result<Response, HttpError> {
        assert_eq!(
            request_session(request).expect("session").get("user"),
            Some("42")
        );
        let session = request_session_mut(request).expect("session");
        assert_eq!(session.flash().peek("success"), vec![String::from("Saved")]);
        Ok(Response::text(200, "again"))
    }
}

#[test]
fn session_middleware_loads_saves_and_sets_cookie() {
    let store = Arc::new(MemorySessionStore::new());
    let cookies = CookieSession::new(Arc::clone(&store) as Arc<dyn SessionStore>);
    let mut kernel = HttpKernel::new(SetUserAndFlash);
    kernel.push_middleware(SessionMiddleware::new(cookies.clone()));
    let response = kernel.handle(Request::new(Method::Get, "/"));
    assert_eq!(response.status(), 200);
    let set_cookie = response.headers().get("set-cookie").expect("set-cookie");
    assert!(set_cookie.contains(DEFAULT_SESSION_COOKIE));
    let id = parse_cookie_value(set_cookie, DEFAULT_SESSION_COOKIE).expect("id");
    let attrs = store.load(&id).expect("load").expect("attrs");
    assert_eq!(attrs.get("user").map(String::as_str), Some("42"));
    assert!(attrs.contains_key("_serenade.flashes"));

    let mut kernel = HttpKernel::new(ReadUserAndFlash);
    kernel.push_middleware(SessionMiddleware::new(cookies));
    let response = kernel.handle(
        Request::new(Method::Get, "/")
            .with_header("cookie", &format!("{DEFAULT_SESSION_COOKIE}={id}")),
    );
    assert_eq!(response.status(), 200);
    assert!(response.headers().get("set-cookie").is_none());
}

struct SetN;

impl RequestHandler for SetN {
    fn handle(&self, request: &mut Request) -> Result<Response, HttpError> {
        request_session_mut(request).expect("session").set("n", "1");
        Ok(Response::text(200, "1"))
    }
}

struct Plain;

impl RequestHandler for Plain {
    fn handle(&self, _request: &mut Request) -> Result<Response, HttpError> {
        Ok(Response::text(200, "2"))
    }
}

#[test]
fn session_middleware_skips_set_cookie_when_clean() {
    let store = Arc::new(MemorySessionStore::new());
    let cookies = CookieSession::new(store);
    let mut first = HttpKernel::new(SetN);
    first.push_middleware(SessionMiddleware::new(cookies.clone()));
    let set = first
        .handle(Request::new(Method::Get, "/"))
        .headers()
        .get("set-cookie")
        .expect("cookie")
        .to_owned();
    let mut second = HttpKernel::new(Plain);
    second.push_middleware(SessionMiddleware::new(cookies));
    let response = second.handle(Request::new(Method::Get, "/").with_header("cookie", &set));
    assert!(response.headers().get("set-cookie").is_none());
}

#[test]
fn middleware_accessors() {
    let cookies = CookieSession::new(Arc::new(MemorySessionStore::new()));
    assert_eq!(
        SessionMiddleware::new(cookies.clone())
            .cookies()
            .options()
            .name(),
        DEFAULT_SESSION_COOKIE
    );
    assert_eq!(
        AsyncSessionMiddleware::new(cookies).cookies().options().name(),
        DEFAULT_SESSION_COOKIE
    );
}

struct DropSession;

impl RequestHandler for DropSession {
    fn handle(&self, request: &mut Request) -> Result<Response, HttpError> {
        let _ = request.attributes_mut().remove::<Session>(SESSION_ATTRIBUTE);
        Ok(Response::text(200, "gone"))
    }
}

#[test]
fn session_middleware_commits_when_attribute_removed() {
    let cookies = CookieSession::new(Arc::new(MemorySessionStore::new()));
    let mut kernel = HttpKernel::new(DropSession);
    kernel.push_middleware(SessionMiddleware::new(cookies));
    let response = kernel.handle(Request::new(Method::Get, "/"));
    assert_eq!(response.status(), 200);
    assert!(response.headers().get("set-cookie").is_none());
}

struct Boom;

impl SessionStore for Boom {
    fn load(&self, _id: &str) -> Result<Option<StringMap>, SessionError> {
        Err(SessionError::Store { message: String::from("load boom") })
    }

    fn save(&self, _id: &str, _attributes: &StringMap) -> Result<(), SessionError> {
        Err(SessionError::Store { message: String::from("save boom") })
    }

    fn delete(&self, _id: &str) -> Result<(), SessionError> {
        Ok(())
    }
}

struct SetK;

impl RequestHandler for SetK {
    fn handle(&self, request: &mut Request) -> Result<Response, HttpError> {
        request_session_mut(request).expect("session").set("k", "v");
        Ok(Response::text(200, "x"))
    }
}

#[test]
fn session_middleware_maps_store_errors() {
    let cookies = CookieSession::new(Arc::new(Boom));
    let mut open_fail = HttpKernel::new(Plain);
    open_fail.push_middleware(SessionMiddleware::new(cookies.clone()));
    let response = open_fail.handle(
        Request::new(Method::Get, "/").with_header("cookie", "SERENADE_SESSION=abc"),
    );
    assert_eq!(response.status(), 500);
    assert!(response.body_str().unwrap_or("").contains("load boom"));

    let mut save_fail = HttpKernel::new(SetK);
    save_fail.push_middleware(SessionMiddleware::new(cookies));
    let response = save_fail.handle(Request::new(Method::Get, "/"));
    assert_eq!(response.status(), 500);
    assert!(response.body_str().unwrap_or("").contains("save boom"));
}

#[test]
fn resume_session_follows_the_store_answer() {
    let mut attrs = StringMap::new();
    attrs.insert(String::from("user"), String::from("ada"));
    let session = resume_session("abc", Ok(Some(attrs)))
        .expect("ok")
        .expect("some");
    assert_eq!(session.id(), "abc");
    assert_eq!(session.get("user"), Some("ada"));
    assert!(!session.is_new());
    assert!(resume_session("abc", Ok(None)).expect("ok").is_none());
    assert!(matches!(
        resume_session("abc", Err(SessionError::Generation)),
        Err(SessionError::Generation)
    ));
}

#[test]
fn commit_plan_deletes_saves_or_keeps() {
    let mut s = Session::existing("abc", StringMap::new());
    assert!(matches!(commit_plan(&s), CommitPlan::Keep));
    s.set("k", "v");
    match commit_plan(&s) {
        CommitPlan::Save { id, attributes } => {
            assert_eq!(id, "abc");
            assert_eq!(attributes.get_str("k"), Some("v"));
        }
        _ => panic!("expected a save"),
    }
    s.invalidate();
    assert!(matches!(commit_plan(&s), CommitPlan::Delete { id } if id == "abc"));
    assert!(matches!(commit_plan(&Session::new("fresh")), CommitPlan::Save { .. }));
}

#[test]
fn cookie_session_id_reads_the_configured_cookie() {
    let store: Arc<dyn SessionStore> = Arc::new(MemorySessionStore::new());
    let c = CookieSession::new(store);
    assert_eq!(
        c.cookie_session_id(Some("a=1; SERENADE_SESSION=xyz")),
        Some(String::from("xyz"))
    );
    assert_eq!(c.cookie_session_id(Some("a=1")), None);
    assert_eq!(c.cookie_session_id(None), None);
}

#[test]
fn commit_passes_on_the_store_answer() {
    let store = Arc::new(MemorySessionStore::new());
    let cookies = CookieSession::new(Arc::clone(&store));
    let mut nameless = Session::new("");
    nameless.set("k", "v");
    assert!(matches!(
        cookies.commit(&nameless),
        Err(SessionError::InvalidId { ref id }) if id.is_empty()
    ));
    let mut gone = Session::new("");
    gone.invalidate();
    assert!(matches!(
        cookies.commit(&gone),
        Err(SessionError::InvalidId { .. })
    ));
    let mut kept = Session::new("abc");
    kept.set("k", "v");
    let header = cookies.commit(&kept).expect("saved").expect("cookie");
    assert!(header.starts_with("SERENADE_SESSION=abc"));
    assert_eq!(
        store.load("abc").expect("load").expect("stored").get_str("k"),
        Some("v")
    );
}
