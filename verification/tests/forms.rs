use std::sync::Mutex;

use serenade::admin::error::AdminError;
use serenade::admin::field::AdminField;
use serenade::admin::forms::{render_delete_form_html, render_edit_form_html, render_new_form_html};
use serenade::admin::handler::AdminResourceHandler;
use serenade::admin::resource::AdminResource;
use serenade::admin::row::AdminRow;
use serenade::form::error::FormError;
use serenade::form::form::{Form, FormStatus};
use serenade::http::method::Method;
use serenade::http::request::Request;
use serenade::security::csrf::{CsrfToken, CsrfTokenManager, CSRF_FIELD_NAME};
use serenade::security::error::SecurityError;
use serenade::session::map::StringMap;

/// Issues `tok-<intention>` and accepts exactly that.
struct EchoCsrf;

impl CsrfTokenManager for EchoCsrf {
    fn get_token(&self, token_id: &str) -> Result<CsrfToken, SecurityError> {
        Ok(CsrfToken::new(token_id, &format!("tok-{token_id}")))
    }

    fn is_token_valid(&self, token: &CsrfToken) -> bool {
        token.value() == format!("tok-{}", token.id())
    }
}

fn extract_csrf(html: &str) -> String {
    let marker = format!("name=\"{CSRF_FIELD_NAME}\" value=\"");
    let start = html.find(&marker).expect("csrf field") + marker.len();
    let end = html[start..].find('"').expect("end quote") + start;
    html[start..end].to_owned()
}

#[test]
fn form_csrf_roundtrip() {
    let mgr = EchoCsrf;
    let mut form = Form::builder("comment")
        .method(Method::Post)
        .action("/comment")
        .field("body")
        .build();
    assert_eq!(form.name(), "comment");
    assert!(!form.is_submitted());
    form.prepare_csrf(&mgr).expect("prepare");
    let rendered = form.render().expect("render");
    let html = rendered.as_html();
    assert!(html.contains(r#"name="_token""#));
    assert!(html.contains("method=\"POST\""));
    assert!(html.contains(r#"action="/comment""#));
    assert_eq!(
        html,
        "<form name=\"comment\" method=\"POST\" action=\"/comment\"><input type=\"hidden\" name=\"_token\" value=\"tok-comment\" /><label for=\"body\">body</label><input type=\"text\" id=\"body\" name=\"body\" value=\"\" /></form>"
    );
    let token_value = extract_csrf(html);
    let body = format!("_token={token_value}&body=hello");
    let request = Request::new(Method::Post, "/").with_body(body.into_bytes());
    assert_eq!(
        form.handle_request(&request, &mgr).expect("bind"),
        FormStatus::Bound
    );
    assert!(form.is_submitted());
    assert_eq!(form.get("body"), Some("hello"));
    assert!(form.set("body", "updated"));
    assert_eq!(form.get("body"), Some("updated"));
    assert!(!form.set("missing", "x"));
    assert_eq!(form.get("missing"), None);
    assert_eq!(form.data().get("body").map(String::as_str), Some("updated"));
}

#[test]
fn form_clears_missing_fields_and_put() {
    let mgr = EchoCsrf;
    let mut form = Form::builder("comment").csrf(false).field("body").build();
    let request = Request::new(Method::Put, "/").with_body(b"other=1".to_vec());
    assert_eq!(
        form.handle_request(&request, &mgr).expect("bind"),
        FormStatus::Bound
    );
    assert_eq!(form.get("body"), Some(""));
}

#[test]
fn form_render_requires_csrf_token() {
    let form = Form::builder("comment").field("body").build();
    let err = form.render().expect_err("no token");
    assert!(matches!(err, FormError::Csrf(_)));
}

#[test]
fn form_render_without_csrf() {
    let form = Form::builder("comment").csrf(false).field("body").build();
    let rendered = form.render().expect("render");
    let html = rendered.as_html();
    assert!(!html.contains("_token"));
    assert!(html.contains(r#"name="body""#));
}

#[test]
fn form_rejects_bad_csrf() {
    let mgr = EchoCsrf;
    let mut form = Form::builder("comment").field("body").build();
    let request = Request::new(Method::Post, "/").with_body(b"_token=nope&body=x".to_vec());
    let err = form.handle_request(&request, &mgr).expect_err("csrf");
    assert!(matches!(err, FormError::Csrf(_)));
    assert_eq!(form.get("body"), Some(""));
    assert!(!form.is_submitted());
}

#[test]
fn form_get_is_not_submitted() {
    let mgr = EchoCsrf;
    let mut form = Form::builder("comment").build();
    let request = Request::new(Method::Get, "/");
    assert_eq!(
        form.handle_request(&request, &mgr).expect("get"),
        FormStatus::NotSubmitted
    );
}

#[test]
fn form_rejects_bad_encoding_and_escapes_values() {
    let mgr = EchoCsrf;
    let mut form = Form::builder("f").csrf(false).field("q").build();
    let bad = Request::new(Method::Post, "/").with_body(b"q=%zz".to_vec());
    assert_eq!(
        form.handle_request(&bad, &mgr),
        Err(FormError::InvalidEncoding)
    );
    let good = Request::new(Method::Post, "/").with_body(b"q=%22%3Cb%3E".to_vec());
    form.handle_request(&good, &mgr).expect("bind");
    let html = form.render().expect("render");
    assert!(html.as_html().contains("value=\"&quot;&lt;b&gt;\""));
}

#[derive(Default)]
struct MemoryHandler {
    rows: Mutex<Vec<AdminRow>>,
    next_id: Mutex<u64>,
}

fn row_from(id: &str, data: &StringMap) -> AdminRow {
    let mut row = AdminRow::new(id);
    for (key, value) in data.to_pairs() {
        row = row.with(&key, &value);
    }
    row
}

impl AdminResourceHandler for MemoryHandler {
    fn list(&self) -> Result<Vec<AdminRow>, AdminError> {
        Ok(self.rows.lock().expect("lock").clone())
    }

    fn get(&self, id: &str) -> Result<Option<AdminRow>, AdminError> {
        Ok(self
            .rows
            .lock()
            .expect("lock")
            .iter()
            .find(|row| row.id() == id)
            .cloned())
    }

    fn create(&self, data: &StringMap) -> Result<AdminRow, AdminError> {
        let id = {
            let mut next = self.next_id.lock().expect("lock");
            *next += 1;
            next.to_string()
        };
        let row = row_from(&id, data);
        self.rows.lock().expect("lock").push(row.clone());
        Ok(row)
    }

    fn update(&self, id: &str, data: &StringMap) -> Result<AdminRow, AdminError> {
        let mut rows = self.rows.lock().expect("lock");
        let Some(slot) = rows.iter_mut().find(|row| row.id() == id) else {
            return Err(AdminError::NotFound { id: id.to_owned() });
        };
        *slot = row_from(id, data);
        Ok(slot.clone())
    }

    fn delete(&self, id: &str) -> Result<bool, AdminError> {
        let mut rows = self.rows.lock().expect("lock");
        let before = rows.len();
        rows.retain(|row| row.id() != id);
        Ok(rows.len() != before)
    }
}

#[test]
fn forms_new_edit_delete_with_csrf_and_handler() {
    let mgr = EchoCsrf;
    let resource = AdminResource::new("product", "/admin/products")
        .list_fields(vec![AdminField::named("name")])
        .form_fields(vec![AdminField::named("name")]);

    let new_html = render_new_form_html(&resource, &mgr).expect("new");
    assert!(new_html.contains("serenade-admin-new"));
    assert!(new_html.contains(CSRF_FIELD_NAME));
    assert!(new_html.contains("name=\"name\""));

    let row = AdminRow::new("1").with("name", "Mug");
    let edit_html = render_edit_form_html(&resource, &row, &mgr).expect("edit");
    assert!(edit_html.contains("value=\"Mug\""));
    assert!(edit_html.contains("/admin/products/1/edit"));

    let delete_html = render_delete_form_html(&resource, "1", &mgr).expect("delete");
    assert!(delete_html.contains("serenade-admin-delete"));
    assert!(delete_html.contains("/admin/products/1/delete"));

    let mut form = serenade::admin::forms::build_resource_form(&resource, &resource.new_path());
    form.prepare_csrf(&mgr).expect("csrf");
    let token = extract_csrf(form.render().expect("render").as_html());
    let body = format!("{CSRF_FIELD_NAME}={token}&name=Cup");
    let request = Request::new(Method::Post, "/admin/products/new").with_body(body.into_bytes());
    assert_eq!(
        form.handle_request(&request, &mgr).expect("bind"),
        FormStatus::Bound
    );
    assert_eq!(form.get("name"), Some("Cup"));

    let handler = MemoryHandler::default();
    let created = handler.create(&form.data()).expect("create");
    assert_eq!(created.get("name"), "Cup");
    assert_eq!(handler.list().expect("list").len(), 1);
    let mut changes = StringMap::new();
    changes.insert(String::from("name"), String::from("Bowl"));
    let updated = handler.update(created.id(), &changes).expect("update");
    assert_eq!(updated.get("name"), "Bowl");
    assert!(handler.delete(created.id()).expect("delete"));
    assert!(!handler.delete(created.id()).expect("missing"));
    assert!(handler.get("nope").expect("get").is_none());
}

#[test]
fn csrf_answer_sets_token_or_refuses() {
    let mut form = Form::builder("f").build();
    assert!(form.accept_csrf_token(Ok(CsrfToken::new("f", "v1"))).is_ok());
    assert!(form.render().expect("render").as_html().contains("value=\"v1\""));
    assert!(matches!(
        form.accept_csrf_token(Err(SecurityError::InvalidCsrfToken)),
        Err(FormError::Csrf(SecurityError::InvalidCsrfToken))
    ));
    let mut open = Form::builder("g").csrf(false).build();
    assert!(open.accept_csrf_token(Err(SecurityError::InvalidCsrfToken)).is_ok());
    assert!(open.render().is_ok());
}

/// Refuses to issue tokens; records every token it is asked to check and
/// accepts only the value `ok`.
struct RecordingCsrf {
    checked: Mutex<Vec<(String, String)>>,
}

impl CsrfTokenManager for RecordingCsrf {
    fn get_token(&self, _token_id: &str) -> Result<CsrfToken, SecurityError> {
        Err(SecurityError::CsrfGeneration)
    }

    fn is_token_valid(&self, token: &CsrfToken) -> bool {
        self.checked
            .lock()
            .expect("lock")
            .push((token.id().to_owned(), token.value().to_owned()));
        token.value() == "ok"
    }
}

#[test]
fn manager_answers_decide_csrf_outcomes() {
    let mgr = RecordingCsrf { checked: Mutex::new(Vec::new()) };
    let mut form = Form::builder("note").method(Method::Post).field("body").build();
    assert!(matches!(
        form.prepare_csrf(&mgr),
        Err(FormError::Csrf(SecurityError::CsrfGeneration))
    ));
    let missing = Request::new(Method::Post, "/").with_body(b"body=x".to_vec());
    assert!(matches!(
        form.handle_request(&missing, &mgr),
        Err(FormError::Csrf(SecurityError::InvalidCsrfToken))
    ));
    let good = Request::new(Method::Post, "/").with_body(b"_token=ok&body=y".to_vec());
    assert_eq!(form.handle_request(&good, &mgr).expect("bind"), FormStatus::Bound);
    assert_eq!(
        *mgr.checked.lock().expect("lock"),
        vec![
            (String::from("note"), String::new()),
            (String::from("note"), String::from("ok"))
        ]
    );
    let resource = AdminResource::new("post", "/admin/posts");
    assert!(matches!(
        render_new_form_html(&resource, &mgr),
        Err(FormError::Csrf(SecurityError::CsrfGeneration))
    ));
}
