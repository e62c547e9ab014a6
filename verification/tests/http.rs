use std::sync::{Arc, Mutex};

use serenade::http::error::HttpError;
use serenade::http::headers::Headers;
use serenade::http::kernel::{
    DefaultExceptionHandler, ExceptionHandler, HttpKernel, Middleware, RequestHandler,
};
use serenade::http::method::Method;
use serenade::http::request::Request;
use serenade::http::response::Response;
use serenade::http::routing::{
    load_routes, Route, RouteCollection, RouteLoader, UrlMatcher, ROUTE_ATTRIBUTE,
};

struct TraceLayer {
    name: &'static str,
    log: Arc<Mutex<Vec<&'static str>>>,
}

impl Middleware for TraceLayer {
    fn process(
        &self,
        request: &mut Request,
        next: &dyn RequestHandler,
    ) -> Result<Response, HttpError> {
        self.log.lock().expect("log").push(self.name);
        next.handle(request)
    }
}

struct FailMapper;

impl ExceptionHandler for FailMapper {
    fn handle(&self, error: &HttpError) -> Response {
        Response::text(503, &format!("mapped:{}", error.message()))
    }
}

#[test]
fn tests_version_is_non_empty() {
    assert_ne!(serenade::version(), "");
}

#[test]
fn method_parses_ascii_case() {
    assert_eq!("post".parse::<Method>().unwrap(), Method::Post);
    assert!("TRACE".parse::<Method>().is_err());
}

#[test]
fn method_as_str_and_display_cover_all_variants() {
    let cases = [
        (Method::Get, "GET"),
        (Method::Head, "HEAD"),
        (Method::Post, "POST"),
        (Method::Put, "PUT"),
        (Method::Patch, "PATCH"),
        (Method::Delete, "DELETE"),
        (Method::Options, "OPTIONS"),
    ];
    for (method, token) in cases {
        assert_eq!(method.as_str(), token);
        assert_eq!(method.to_text(), token);
        assert_eq!(token.parse::<Method>().unwrap(), method);
    }
}

#[test]
fn headers_are_case_insensitive() {
    let mut headers = Headers::new();
    assert!(headers.is_empty());
    headers.insert("Content-Type", "application/json");
    assert_eq!(headers.get("content-type"), Some("application/json"));
    assert_eq!(headers.len(), 1);
    assert!(!headers.is_empty());
    assert!(headers.pairs().iter().any(|(name, _)| name == "content-type"));
}

#[test]
fn request_query_roundtrip() {
    let request = Request::new(Method::Get, "/").with_query("_locale=fr&x=1");
    assert_eq!(request.query(), Some("_locale=fr&x=1"));
    assert!(Request::new(Method::Get, "/").query().is_none());
}

#[test]
fn attributes_roundtrip() {
    let mut request = Request::new(Method::Get, "/items/1");
    request.attributes_mut().insert("item_id", 1_u64);
    assert_eq!(request.attributes().get::<u64>("item_id"), Some(&1));
    *request
        .attributes_mut()
        .get_mut::<u64>("item_id")
        .expect("id") = 2;
    assert_eq!(request.attributes().get::<u64>("item_id"), Some(&2));
    assert!(request.attributes().contains("item_id"));
    assert_eq!(request.attributes().len(), 1);
    assert_eq!(request.attributes_mut().remove::<u64>("item_id"), Some(2));
    assert!(request.attributes().is_empty());
    let debug = format!("{:?}", request.attributes());
    assert!(debug.contains("AttributeBag"));
}

#[test]
fn attribute_of_other_type_reads_as_absent() {
    let mut request = Request::new(Method::Get, "/");
    request.attributes_mut().insert("n", 7_u64);
    assert!(request.attributes().get::<String>("n").is_none());
    assert!(request.attributes().contains("n"));
    request.attributes_mut().insert("n", String::from("seven"));
    assert_eq!(request.attributes().len(), 1);
    assert_eq!(
        request.attributes().get::<String>("n").map(String::as_str),
        Some("seven")
    );
    assert_eq!(request.attributes_mut().remove::<u64>("n"), None);
    assert!(!request.attributes().contains("n"));
}

#[test]
fn route_collection_rejects_duplicate_and_allows_any_method() {
    let route = Route::new("any", "/ping", vec![]);
    assert_eq!(route.methods(), []);
    assert!(route.allows(Method::Delete));
    assert_eq!(route.path(), "/ping");
    let mut collection = RouteCollection::new();
    assert_eq!(collection.len(), 0);
    collection.add(route).expect("add");
    let err = collection
        .add(Route::with_method("any", "/other", Method::Get))
        .expect_err("duplicate");
    assert!(err.describe().contains("already registered"));
    assert_eq!(collection.routes().len(), 1);
    assert!(!collection.is_empty());
    assert!(RouteCollection::new().is_empty());
}

#[test]
fn route_with_methods_allows_only_those() {
    let route = Route::new("form", "/form", vec![Method::Get, Method::Post]);
    assert!(route.allows(Method::Get));
    assert!(route.allows(Method::Post));
    assert!(!route.allows(Method::Delete));
    assert_eq!(route.name(), "form");
}

#[test]
fn route_collection_generate_and_get() {
    let mut collection = RouteCollection::new();
    collection
        .add(Route::with_method("home", "/", Method::Get))
        .expect("home");
    collection
        .add(Route::with_method("item", "/items/{id}", Method::Get))
        .expect("item");
    collection
        .add(Route::with_method(
            "nested",
            "/posts/{post}/comments/{id}",
            Method::Get,
        ))
        .expect("nested");
    assert!(collection.get("item").is_some());
    assert!(collection.get("missing").is_none());
    assert_eq!(collection.generate("home", &[]).expect("home"), "/");
    assert_eq!(
        collection.generate("item", &[("id", "42")]).expect("item"),
        "/items/42"
    );
    assert_eq!(
        collection
            .generate("nested", &[("post", "a b"), ("id", "1")])
            .expect("nested"),
        "/posts/a%20b/comments/1"
    );
    assert_eq!(
        collection
            .generate("nope", &[])
            .expect_err("missing route")
            .status_code(),
        404
    );
    assert_eq!(
        collection
            .generate("item", &[])
            .expect_err("missing param")
            .status_code(),
        400
    );
    assert_eq!(
        collection
            .generate("item", &[("id", "1"), ("extra", "x")])
            .expect_err("unused")
            .status_code(),
        400
    );
    assert_eq!(
        collection
            .generate("item", &[("id", "1"), ("id", "2")])
            .expect_err("duplicate")
            .status_code(),
        400
    );
}

#[test]
fn generate_encodes_reserved_and_non_ascii_bytes() {
    let mut collection = RouteCollection::new();
    collection
        .add(Route::with_method("file", "/files/{name}", Method::Get))
        .expect("add");
    assert_eq!(
        collection
            .generate("file", &[("name", "a/b?c=é~_.-")])
            .expect("generate"),
        "/files/a%2Fb%3Fc%3D%C3%A9~_.-"
    );
    let err = collection
        .generate("file", &[("name", "x"), ("name", "y")])
        .expect_err("duplicate");
    assert_eq!(err.message(), "duplicate parameter for route `file`");
}

#[test]
fn matcher_returns_404_and_exposes_collection() {
    let mut collection = RouteCollection::new();
    collection
        .add(Route::with_method("item", "/items/{id}", Method::Get))
        .expect("add");
    let matcher = UrlMatcher::new(collection);
    assert_eq!(matcher.collection().len(), 1);
    let missing = matcher
        .match_request(Method::Get, "/nope")
        .expect_err("404");
    assert_eq!(missing.status_code(), 404);
    let wrong_len = matcher
        .match_request(Method::Get, "/items/1/extra")
        .expect_err("segment count");
    assert_eq!(wrong_len.status_code(), 404);
}

struct ClosureLoader;

impl RouteLoader for ClosureLoader {
    fn load(&self, routes: &mut RouteCollection) -> Result<(), HttpError> {
        routes.add(Route::with_method("closure", "/closure", Method::Get))
    }
}

#[test]
fn closure_route_loader_registers_routes() {
    let collection = load_routes(&[&ClosureLoader]).expect("load");
    assert_eq!(collection.len(), 1);
}

struct Healthz;

impl RequestHandler for Healthz {
    fn handle(&self, request: &mut Request) -> Result<Response, HttpError> {
        assert_eq!(request.path(), "/healthz");
        Ok(Response::text(200, "ok"))
    }
}

#[test]
fn kernel_runs_controller() {
    let kernel = HttpKernel::new(Healthz);
    let response = kernel.handle(Request::new(Method::Get, "/healthz"));
    assert_eq!(response.status(), 200);
    assert_eq!(response.body_str(), Some("ok"));
}

struct LoggingController {
    log: Arc<Mutex<Vec<&'static str>>>,
}

impl RequestHandler for LoggingController {
    fn handle(&self, _request: &mut Request) -> Result<Response, HttpError> {
        self.log.lock().expect("log").push("controller");
        Ok(Response::new(204))
    }
}

#[test]
fn middleware_runs_outer_first() {
    let log = Arc::new(Mutex::new(Vec::new()));
    let mut kernel = HttpKernel::new(LoggingController {
        log: Arc::clone(&log),
    });
    kernel.push_middleware(TraceLayer {
        name: "outer",
        log: Arc::clone(&log),
    });
    kernel.push_middleware(TraceLayer {
        name: "inner",
        log: Arc::clone(&log),
    });
    let response = kernel.handle(Request::new(Method::Get, "/"));
    assert_eq!(response.status(), 204);
    assert_eq!(*log.lock().expect("log"), ["outer", "inner", "controller"]);
}

struct Missing;

impl RequestHandler for Missing {
    fn handle(&self, _request: &mut Request) -> Result<Response, HttpError> {
        Err(HttpError::status(404, "missing"))
    }
}

#[test]
fn default_exception_handler_maps_status() {
    let kernel = HttpKernel::new(Missing);
    let response = kernel.handle(Request::new(Method::Get, "/gone"));
    assert_eq!(response.status(), 404);
    assert_eq!(response.body_str(), Some("missing"));
    let fallback = DefaultExceptionHandler.handle(&HttpError::failed("boom"));
    assert_eq!(fallback.status(), 500);
}

struct Nope;

impl RequestHandler for Nope {
    fn handle(&self, _request: &mut Request) -> Result<Response, HttpError> {
        Err(HttpError::failed("nope"))
    }
}

#[test]
fn custom_exception_handler_replaces_default() {
    let kernel = HttpKernel::new(Nope).with_exception_handler(FailMapper);
    let response = kernel.handle(Request::new(Method::Post, "/"));
    assert_eq!(response.status(), 503);
    assert_eq!(response.body_str(), Some("mapped:nope"));
}

#[test]
fn matcher_extracts_path_parameters() {
    let mut collection = RouteCollection::new();
    collection
        .add(Route::with_method("item_show", "/items/{id}", Method::Get))
        .expect("add");
    let matcher = UrlMatcher::new(collection);
    let found = matcher
        .match_request(Method::Get, "/items/42")
        .expect("match");
    assert_eq!(found.route_name(), "item_show");
    assert_eq!(found.parameters().get("id").map(String::as_str), Some("42"));

    let mut request = Request::new(Method::Get, "/items/7");
    let applied = matcher.apply(&mut request).expect("apply");
    assert_eq!(applied.route_name(), "item_show");
    assert_eq!(
        request.attributes().get::<String>("id").map(String::as_str),
        Some("7")
    );
}

#[test]
fn matcher_returns_405_for_wrong_method() {
    let mut collection = RouteCollection::new();
    collection
        .add(Route::with_method("healthz", "/healthz", Method::Get))
        .expect("add");
    let matcher = UrlMatcher::new(collection);
    let error = matcher
        .match_request(Method::Post, "/healthz")
        .expect_err("method");
    assert_eq!(error.status_code(), 405);
}

#[test]
fn matcher_prefers_first_registered_route() {
    let mut collection = RouteCollection::new();
    collection
        .add(Route::with_method("post_only", "/a/{x}", Method::Post))
        .expect("post");
    collection
        .add(Route::with_method("fixed", "/a/b", Method::Get))
        .expect("fixed");
    collection
        .add(Route::with_method("pattern", "/a/{x}", Method::Get))
        .expect("pattern");
    let matcher = UrlMatcher::new(collection);
    let found = matcher.match_request(Method::Get, "/a/b").expect("match");
    assert_eq!(found.route_name(), "fixed");
    let found = matcher.match_request(Method::Get, "/a/c").expect("match");
    assert_eq!(found.route_name(), "pattern");
    assert_eq!(found.parameters().get("x").map(String::as_str), Some("c"));
    let mut request = Request::new(Method::Delete, "/a/c");
    assert_eq!(matcher.apply(&mut request).expect_err("405").status_code(), 405);
    assert!(request.attributes().is_empty());
}

struct HealthzBundle;

impl RouteLoader for HealthzBundle {
    fn load(&self, collection: &mut RouteCollection) -> Result<(), HttpError> {
        collection.add(Route::with_method("healthz", "/healthz", Method::Get))
    }
}

struct RouteNameController;

impl RequestHandler for RouteNameController {
    fn handle(&self, req: &mut Request) -> Result<Response, HttpError> {
        match req
            .attributes()
            .get::<String>(ROUTE_ATTRIBUTE)
            .map(String::as_str)
        {
            Some("healthz") => Ok(Response::text(200, "ok")),
            _ => Err(HttpError::status(404, "missing")),
        }
    }
}

#[test]
fn bundle_loader_registers_get_healthz() {
    let collection = load_routes(&[&HealthzBundle]).expect("load");
    assert_eq!(collection.len(), 1);
    let matcher = UrlMatcher::new(collection);
    let mut request = Request::new(Method::Get, "/healthz");
    let found = matcher.apply(&mut request).expect("apply");
    assert_eq!(found.route_name(), "healthz");
    assert_eq!(
        request
            .attributes()
            .get::<String>(ROUTE_ATTRIBUTE)
            .map(String::as_str),
        Some("healthz")
    );

    let kernel = HttpKernel::new(RouteNameController);
    let response = kernel.handle(request);
    assert_eq!(response.status(), 200);
    assert_eq!(response.body_str(), Some("ok"));
}

#[test]
fn http_error_convenience_constructors() {
    let not_found = HttpError::not_found("gone");
    assert_eq!(not_found.status_code(), 404);
    assert_eq!(not_found.message(), "gone");
    let bad = HttpError::bad_request("nope");
    assert_eq!(bad.status_code(), 400);
    let unprocessable = HttpError::unprocessable("bad body");
    assert_eq!(unprocessable.status_code(), 422);
    assert!(unprocessable.describe().contains("422"));
    assert_eq!(unprocessable.describe(), "HTTP 422: bad body");
}

#[test]
fn request_with_header_and_body_builders() {
    let request = Request::new(Method::Post, "/echo")
        .with_header("X-Trace", "abc")
        .with_body(b"ping".to_vec());
    assert_eq!(request.method(), Method::Post);
    assert_eq!(request.path(), "/echo");
    assert_eq!(request.headers().get("x-trace"), Some("abc"));
    assert_eq!(request.body(), b"ping");
}

#[test]
fn matcher_rejects_static_segment_mismatch() {
    let mut collection = RouteCollection::new();
    collection
        .add(Route::with_method("fixed", "/shop/cart", Method::Get))
        .expect("add");
    let matcher = UrlMatcher::new(collection);
    let err = matcher
        .match_request(Method::Get, "/shop/other")
        .expect_err("static mismatch");
    assert_eq!(err.status_code(), 404);
}

#[test]
fn generated_path_matches_its_route_with_encoded_values() {
    let mut collection = RouteCollection::new();
    collection
        .add(Route::with_method("nested", "/posts/{post}/comments/{id}", Method::Get))
        .expect("add");
    let path = collection
        .generate("nested", &[("post", "a b"), ("id", "1/2")])
        .expect("generate");
    assert_eq!(path, "/posts/a%20b/comments/1%2F2");
    let matcher = UrlMatcher::new(collection);
    let found = matcher.match_request(Method::Get, &path).expect("match");
    assert_eq!(found.route_name(), "nested");
    assert_eq!(found.parameters().get("post").map(String::as_str), Some("a%20b"));
    assert_eq!(found.parameters().get("id").map(String::as_str), Some("1%2F2"));
    assert_eq!(found.parameters().len(), 2);
}

#[test]
fn attribute_store_keeps_other_keys_and_replaces_type() {
    let mut request = Request::new(Method::Get, "/");
    request.attributes_mut().insert("name", String::from("ada"));
    request.attributes_mut().insert("count", 3_u64);
    assert_eq!(request.attributes().get::<String>("name").map(String::as_str), Some("ada"));
    assert_eq!(request.attributes().get::<u64>("count"), Some(&3));
    request.attributes_mut().insert("name", 9_u64);
    assert_eq!(request.attributes().get::<String>("name"), None);
    assert_eq!(request.attributes().get::<u64>("name"), Some(&9));
    assert_eq!(request.attributes().get::<u64>("count"), Some(&3));
    assert_eq!(request.attributes().len(), 2);
}

#[test]
fn method_from_str_parses_any_case_and_refuses_others() {
    assert_eq!("get".parse::<Method>().ok(), Some(Method::Get));
    let err = "BREW".parse::<Method>().expect_err("unsupported");
    assert_eq!(err.status_code(), 400);
    assert_eq!(err.message(), "unsupported HTTP method");
}
