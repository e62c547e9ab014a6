//! HTML forms: text fields, binding of URL-encoded submits with CSRF checks,
//! and escaped rendering.

use vstd::prelude::*;

use crate::form::error::FormError;
use crate::form::escape::{escape_attr, escape_html, escape_html_text};
use crate::form::parse::{parse_body, parse_urlencoded};
use crate::http::method::{method_token, Method};
use crate::http::request::Request;
use crate::security::csrf::{CsrfToken, CsrfTokenManager, CSRF_FIELD_NAME};
use crate::security::error::SecurityError;
use crate::session::map::StringMap;
use crate::text::push_str;

verus! {

/// Outcome of [`Form::handle_request`].
#[derive(Clone, Copy, Debug, PartialEq, Eq, Structural)]
pub enum FormStatus {
    /// The request was not a submit (not POST, PUT or PATCH).
    NotSubmitted,
    /// The submit was bound (and its CSRF token accepted when CSRF is on).
    Bound,
}

/// One named text field and its current value.
#[derive(Clone, Debug)]
pub struct Field {
    name: String,
    value: String,
}

impl Field {
    pub closed spec fn name_view(&self) -> Seq<char> {
        self.name@
    }

    pub closed spec fn value_view(&self) -> Seq<char> {
        self.value@
    }

    /// Field name (the HTML `name` attribute).
    pub fn name(&self) -> (r: &str)
        ensures
            r@ == self.name_view(),
    {
        self.name.as_str()
    }

    /// Current value (empty before binding).
    pub fn value(&self) -> (r: &str)
        ensures
            r@ == self.value_view(),
    {
        self.value.as_str()
    }
}

/// Names and values of fields.
pub open spec fn fields_view(fs: Seq<Field>) -> Seq<(Seq<char>, Seq<char>)> {
    fs.map_values(|f: Field| (f.name_view(), f.value_view()))
}

/// Index of the first field named `n`.
pub open spec fn first_named(fs: Seq<(Seq<char>, Seq<char>)>, n: Seq<char>) -> Option<int> {
    if exists|i: int| 0 <= i < fs.len() && fs[i].0 == n {
        Some(choose|i: int| 0 <= i < fs.len() && fs[i].0 == n && forall|j: int| 0 <= j < i ==> fs[j].0 != n)
    } else {
        None
    }
}

/// The token value a submitted body carries: its [`CSRF_FIELD_NAME`] value,
/// or empty text.
pub open spec fn submitted_token_value(values: Map<Seq<char>, Seq<char>>) -> Seq<char> {
    if values.dom().contains(CSRF_FIELD_NAME@) {
        values[CSRF_FIELD_NAME@]
    } else {
        Seq::<char>::empty()
    }
}

/// What taking the manager's answer `a` gives with CSRF on: its token becomes
/// the form's token, or its refusal becomes [`FormError::Csrf`] with the
/// token unchanged.
pub open spec fn token_accepted(
    a: Result<CsrfToken, SecurityError>,
    r: Result<(), FormError>,
    before: Option<CsrfToken>,
    after: Option<CsrfToken>,
) -> bool {
    match a {
        Ok(t) => r is Ok && after == Some(t),
        Err(e) => r == Err::<(), FormError>(FormError::Csrf(e)) && after == before,
    }
}

/// Field values taken from submitted pairs; a field that was not submitted
/// becomes empty.
pub open spec fn bound_fields(
    fs: Seq<(Seq<char>, Seq<char>)>,
    values: Map<Seq<char>, Seq<char>>,
) -> Seq<(Seq<char>, Seq<char>)> {
    fs.map_values(
        |f: (Seq<char>, Seq<char>)|
            (f.0, if values.dom().contains(f.0) {
                values[f.0]
            } else {
                Seq::empty()
            }),
    )
}

/// Map of field names to values (a later field wins).
pub open spec fn fields_map(fs: Seq<(Seq<char>, Seq<char>)>) -> Map<Seq<char>, Seq<char>>
    decreases fs.len(),
{
    if fs.len() == 0 {
        Map::empty()
    } else {
        fields_map(fs.drop_last()).insert(fs.last().0, fs.last().1)
    }
}

/// Whether a request method submits a form.
pub open spec fn submits(m: Method) -> bool {
    m == Method::Post || m == Method::Put || m == Method::Patch
}

/// HTML of one field.
pub open spec fn field_html(n: Seq<char>, v: Seq<char>) -> Seq<char> {
    "<label for=\""@ + escape_html_text(n) + "\">"@ + escape_html_text(n)
        + "</label><input type=\"text\" id=\""@ + escape_html_text(n) + "\" name=\""@
        + escape_html_text(n) + "\" value=\""@ + escape_html_text(v) + "\" />"@
}

/// HTML of every field, in order.
pub open spec fn fields_html(fs: Seq<(Seq<char>, Seq<char>)>) -> Seq<char>
    decreases fs.len(),
{
    if fs.len() == 0 {
        seq![]
    } else {
        fields_html(fs.drop_last()) + field_html(fs.last().0, fs.last().1)
    }
}

/// Hidden input carrying CSRF token `value`.
pub open spec fn csrf_html(value: Seq<char>) -> Seq<char> {
    "<input type=\"hidden\" name=\""@ + escape_html_text(CSRF_FIELD_NAME@) + "\" value=\""@
        + escape_html_text(value) + "\" />"@
}

/// The whole form.
pub open spec fn form_html(
    name: Seq<char>,
    method: Method,
    action: Seq<char>,
    csrf: Seq<char>,
    fs: Seq<(Seq<char>, Seq<char>)>,
) -> Seq<char> {
    "<form name=\""@ + escape_html_text(name) + "\" method=\""@ + escape_html_text(
        method_token(method),
    ) + "\" action=\""@ + escape_html_text(action) + "\">"@ + csrf + fields_html(fs)
        + "</form>"@
}

/// Markup of form `f` with its own CSRF token.
pub open spec fn form_markup(f: Form) -> Seq<char> {
    form_html(
        f.name_view(),
        f.method_view(),
        f.action_view(),
        if f.csrf_on() {
            csrf_html(f.token_view()->0.value_view())
        } else {
            Seq::empty()
        },
        f.fields_of(),
    )
}

/// HTML form with CSRF (on by default).
#[derive(Debug)]
pub struct Form {
    name: String,
    method: Method,
    action: String,
    fields: Vec<Field>,
    csrf_enabled: bool,
    csrf_token: Option<CsrfToken>,
    submitted: bool,
}

/// Rendered form markup.
#[derive(Clone, Debug)]
pub struct RenderedForm {
    html: String,
}

impl RenderedForm {
    pub closed spec fn html_view(&self) -> Seq<char> {
        self.html@
    }

    /// The markup.
    pub fn as_html(&self) -> (r: &str)
        ensures
            r@ == self.html_view(),
    {
        self.html.as_str()
    }
}

impl Form {
    pub closed spec fn name_view(&self) -> Seq<char> {
        self.name@
    }

    pub closed spec fn method_view(&self) -> Method {
        self.method
    }

    pub closed spec fn action_view(&self) -> Seq<char> {
        self.action@
    }

    pub closed spec fn fields_of(&self) -> Seq<(Seq<char>, Seq<char>)> {
        fields_view(self.fields@)
    }

    pub closed spec fn csrf_on(&self) -> bool {
        self.csrf_enabled
    }

    pub closed spec fn token_view(&self) -> Option<CsrfToken> {
        self.csrf_token
    }

    pub closed spec fn submitted_view(&self) -> bool {
        self.submitted
    }

    /// `other` has this form's name, method, action and CSRF setting.
    pub open spec fn same_shape(&self, other: &Form) -> bool {
        &&& other.name_view() == self.name_view()
        &&& other.method_view() == self.method_view()
        &&& other.action_view() == self.action_view()
        &&& other.csrf_on() == self.csrf_on()
        &&& fields_names(other.fields_of()) == fields_names(self.fields_of())
    }

    /// Starts a builder for a form named `name` (also the CSRF intention).
    pub fn builder(name: &str) -> (b: FormBuilder)
        ensures
            b.name_view() == name@,
            b.method_view() == Method::Post,
            b.action_view() == Seq::<char>::empty(),
            b.fields_view() == Seq::<Seq<char>>::empty(),
            b.csrf_view(),
    {
        FormBuilder::new(name)
    }

    /// Form name and CSRF intention.
    pub fn name(&self) -> (r: &str)
        ensures
            r@ == self.name_view(),
    {
        self.name.as_str()
    }

    /// Whether the last [`Form::handle_request`] bound a submit.
    pub fn is_submitted(&self) -> (r: bool)
        ensures
            r == self.submitted_view(),
    {
        self.submitted
    }

    /// Field values by name (without the CSRF field).
    pub fn data(&self) -> (r: StringMap)
        ensures
            r@ == fields_map(self.fields_of()),
    {
        let ghost fs = self.fields_of();
        let mut out = StringMap::new();
        let mut i: usize = 0;
        assert(fs.take(0) =~= Seq::<(Seq<char>, Seq<char>)>::empty());
        while i < self.fields.len()
            invariant
                i <= self.fields.len(),
                fs == fields_view(self.fields@),
                out@ == fields_map(fs.take(i as int)),
            decreases self.fields.len() - i,
        {
            out.insert(self.fields[i].name.clone(), self.fields[i].value.clone());
            assert(fs.take(i as int + 1).drop_last() =~= fs.take(i as int));
            i = i + 1;
        }
        assert(fs.take(self.fields.len() as int) =~= fs);
        out
    }

    fn position(&self, name: &str) -> (r: Option<usize>)
        ensures
            match r {
                Some(i) => i < self.fields@.len() && first_named(self.fields_of(), name@) == Some(
                    i as int,
                ) && self.fields_of()[i as int].0 == name@,
                None => first_named(self.fields_of(), name@) is None,
            },
    {
        let ghost fs = self.fields_of();
        let mut i: usize = 0;
        while i < self.fields.len()
            invariant
                i <= self.fields.len(),
                fs == fields_view(self.fields@),
                forall|j: int| 0 <= j < i ==> fs[j].0 != name@,
            decreases self.fields.len() - i,
        {
            if crate::text::str_eq(self.fields[i].name.as_str(), name) {
                proof {
                    assert(fs[i as int].0 == name@);
                    let k = choose|k: int| 0 <= k < fs.len() && fs[k].0 == name@ && forall|j: int|
                        0 <= j < k ==> fs[j].0 != name@;
                    assert(k == i) by {
                        if k < i {
                            assert(fs[k].0 != name@);
                        }
                        if i < k {
                            assert(fs[i as int].0 != name@);
                        }
                    }
                }
                return Some(i);
            }
            i = i + 1;
        }
        None
    }

    /// Value of the first field named `name`.
    pub fn get(&self, name: &str) -> (r: Option<&str>)
        ensures
            match first_named(self.fields_of(), name@) {
                Some(i) => r matches Some(v) && v@ == self.fields_of()[i].1,
                None => r is None,
            },
    {
        match self.position(name) {
            Some(i) => Some(self.fields[i].value.as_str()),
            None => None,
        }
    }

    /// Sets the value of the first field named `name`; `false` (and no
    /// change) when there is none.
    pub fn set(&mut self, name: &str, value: &str) -> (r: bool)
        ensures
            old(self).same_shape(&*final(self)),
            final(self).token_view() == old(self).token_view(),
            final(self).submitted_view() == old(self).submitted_view(),
            match first_named(old(self).fields_of(), name@) {
                Some(i) => r && final(self).fields_of() == old(self).fields_of().update(
                    i,
                    (name@, value@),
                ),
                None => !r && final(self).fields_of() == old(self).fields_of(),
            },
    {
        match self.position(name) {
            None => false,
            Some(i) => {
                let ghost before = self.fields_of();
                let f = Field { name: name.to_owned(), value: value.to_owned() };
                self.fields.set(i, f);
                proof {
                    let after = self.fields_of();
                    assert(after =~= before.update(i as int, (name@, value@)));
                    assert(before[i as int].0 == name@);
                    assert forall|k: int| 0 <= k < after.len() implies #[trigger] fields_names(
                        after,
                    )[k] == fields_names(before)[k] by {
                        assert(after[k].0 == before[k].0);
                    }
                    assert(fields_names(after) =~= fields_names(before));
                }
                true
            },
        }
    }

    /// Asks `manager` for a token when CSRF is on (call before rendering a
    /// fresh form).
    pub fn prepare_csrf<M: CsrfTokenManager + ?Sized>(&mut self, manager: &M) -> (r: Result<(), FormError>)
        ensures
            old(self).same_shape(&*final(self)),
            final(self).fields_of() == old(self).fields_of(),
            final(self).submitted_view() == old(self).submitted_view(),
            !old(self).csrf_on() ==> r is Ok && final(self).token_view() == old(self).token_view(),
            old(self).csrf_on() ==> exists|a: Result<CsrfToken, SecurityError>|
                #[trigger] manager.issued(old(self).name_view(), a) && token_accepted(
                    a,
                    r,
                    old(self).token_view(),
                    final(self).token_view(),
                ),
            r is Err ==> final(self).token_view() == old(self).token_view() && (r matches Err(
                e,
            ) && e is Csrf),
    {
        if !self.csrf_enabled {
            return Ok(());
        }
        let token = manager.get_token(self.name.as_str());
        let ghost answer = token;
        let ghost before = self.token_view();
        let r = self.accept_csrf_token(token);
        assert(manager.issued(old(self).name_view(), answer));
        assert(token_accepted(answer, r, before, self.token_view()));
        r
    }

    /// Takes the manager's answer to a token request: with CSRF on, a token
    /// becomes the form's token and a refusal becomes [`FormError::Csrf`];
    /// with CSRF off the answer is ignored.
    pub fn accept_csrf_token(&mut self, token: Result<CsrfToken, SecurityError>) -> (r: Result<
        (),
        FormError,
    >)
        ensures
            old(self).same_shape(&*final(self)),
            final(self).fields_of() == old(self).fields_of(),
            final(self).submitted_view() == old(self).submitted_view(),
            !old(self).csrf_on() ==> r is Ok && final(self).token_view() == old(self).token_view(),
            old(self).csrf_on() ==> match token {
                Ok(t) => r is Ok && final(self).token_view() == Some(t),
                Err(e) => r == Err::<(), FormError>(FormError::Csrf(e)) && final(self).token_view()
                    == old(self).token_view(),
            },
    {
        if !self.csrf_enabled {
            return Ok(());
        }
        match token {
            Ok(t) => {
                self.csrf_token = Some(t);
                Ok(())
            },
            Err(e) => Err(FormError::Csrf(e)),
        }
    }

    /// Binds a POST/PUT/PATCH form body: checks the CSRF token (when CSRF is
    /// on) and sets every field from the submitted pairs (a field missing
    /// from the body becomes empty).  Other methods are not submits.  A body
    /// that is not valid form encoding, or a token the manager refuses,
    /// leaves the fields as they were.
    pub fn handle_request<M: CsrfTokenManager + ?Sized>(&mut self, request: &Request, manager: &M) -> (r:
        Result<FormStatus, FormError>)
        ensures
            old(self).same_shape(&*final(self)),
            !submits(request.method_view()) ==> r == Ok::<FormStatus, FormError>(
                FormStatus::NotSubmitted,
            ) && final(self).fields_of() == old(self).fields_of() && !final(self).submitted_view()
                && final(self).token_view() == old(self).token_view(),
            submits(request.method_view()) && parse_body(request.body_view()) is None ==> r
                == Err::<FormStatus, FormError>(FormError::InvalidEncoding) && final(self).fields_of()
                == old(self).fields_of() && !final(self).submitted_view(),
            submits(request.method_view()) && parse_body(request.body_view()) is Some ==> ({
                let values = parse_body(request.body_view())->0;
                let bound = r == Ok::<FormStatus, FormError>(FormStatus::Bound) && final(self).fields_of() == bound_fields(old(self).fields_of(), values)
                    && final(self).submitted_view();
                let refused = r == Err::<FormStatus, FormError>(
                    FormError::Csrf(SecurityError::InvalidCsrfToken),
                ) && final(self).fields_of() == old(self).fields_of() && !final(self).submitted_view();
                if old(self).csrf_on() {
                    exists|t: CsrfToken, valid: bool|
                        #[trigger] manager.checked(t, valid) && t.id_view() == old(self).name_view()
                            && t.value_view() == submitted_token_value(values) && (if valid {
                            bound && final(self).token_view() == Some(t)
                        } else {
                            refused
                        })
                } else {
                    bound && final(self).token_view() == old(self).token_view()
                }
            }),
    {
        let ghost mut checked_token: CsrfToken = arbitrary();
        let ghost mut answer: bool = true;
        self.submitted = false;
        let m = request.method();
        if !(m == Method::Post || m == Method::Put || m == Method::Patch) {
            return Ok(FormStatus::NotSubmitted);
        }
        let values = match parse_urlencoded(request.body()) {
            Ok(v) => v,
            Err(e) => {
                return Err(e);
            },
        };
        if self.csrf_enabled {
            let submitted = match values.get_str(CSRF_FIELD_NAME) {
                Some(s) => s,
                None => {
                    let e = "";
                    proof {
                        reveal_strlit("");
                    }
                    e
                },
            };
            let token = CsrfToken::new(self.name.as_str(), submitted);
            let valid = manager.is_token_valid(&token);
            proof {
                checked_token = token;
                answer = valid;
            }
            if !valid {
                assert(manager.checked(checked_token, answer));
                return Err(FormError::Csrf(SecurityError::InvalidCsrfToken));
            }
            self.csrf_token = Some(token);
        }
        let ghost before = self.fields_of();
        let mut bound: Vec<Field> = Vec::new();
        let mut i: usize = 0;
        while i < self.fields.len()
            invariant
                i <= self.fields.len(),
                before == fields_view(self.fields@),
                fields_view(bound@) == bound_fields(before, values@).take(i as int),
            decreases self.fields.len() - i,
        {
            let name = self.fields[i].name.clone();
            let value = match values.get_str(name.as_str()) {
                Some(v) => v.to_owned(),
                None => String::new(),
            };
            let ghost b0 = fields_view(bound@);
            bound.push(Field { name, value });
            assert(fields_view(bound@) =~= b0.push(bound_fields(before, values@)[i as int]));
            assert(bound_fields(before, values@).take(i as int + 1) =~= bound_fields(
                before,
                values@,
            ).take(i as int).push(bound_fields(before, values@)[i as int]));
            i = i + 1;
        }
        assert(bound_fields(before, values@).take(self.fields.len() as int) =~= bound_fields(
            before,
            values@,
        ));
        self.fields = bound;
        self.submitted = true;
        assert(fields_names(self.fields_of()) =~= fields_names(before));
        assert(self.csrf_on() ==> manager.checked(checked_token, answer));
        Ok(FormStatus::Bound)
    }

    /// Escaped HTML of the form, with the hidden CSRF field when CSRF is on;
    /// fails when CSRF is on and no token was prepared or bound.
    pub fn render(&self) -> (r: Result<RenderedForm, FormError>)
        ensures
            match r {
                Ok(h) => h.html_view() == form_markup(*self),
                Err(e) => self.csrf_on() && self.token_view() is None && e == FormError::Csrf(
                    SecurityError::InvalidCsrfToken,
                ),
            },
            self.csrf_on() && self.token_view() is None <==> r is Err,
    {
        let mut csrf = String::new();
        if self.csrf_enabled {
            match &self.csrf_token {
                None => {
                    return Err(FormError::Csrf(SecurityError::InvalidCsrfToken));
                },
                Some(token) => {
                    push_str(&mut csrf, "<input type=\"hidden\" name=\"");
                    let n = escape_attr(CSRF_FIELD_NAME);
                    push_str(&mut csrf, n.as_str());
                    push_str(&mut csrf, "\" value=\"");
                    let v = escape_attr(token.value());
                    push_str(&mut csrf, v.as_str());
                    push_str(&mut csrf, "\" />");
                },
            }
        }
        let ghost fs = self.fields_of();
        let mut fields_out = String::new();
        let mut i: usize = 0;
        assert(fs.take(0) =~= Seq::<(Seq<char>, Seq<char>)>::empty());
        while i < self.fields.len()
            invariant
                i <= self.fields.len(),
                fs == fields_view(self.fields@),
                fields_out@ == fields_html(fs.take(i as int)),
            decreases self.fields.len() - i,
        {
            let f = &self.fields[i];
            let id = escape_attr(f.name());
            let label = escape_html(f.name());
            let value = escape_attr(f.value());
            push_str(&mut fields_out, "<label for=\"");
            push_str(&mut fields_out, id.as_str());
            push_str(&mut fields_out, "\">");
            push_str(&mut fields_out, label.as_str());
            push_str(&mut fields_out, "</label><input type=\"text\" id=\"");
            push_str(&mut fields_out, id.as_str());
            push_str(&mut fields_out, "\" name=\"");
            push_str(&mut fields_out, id.as_str());
            push_str(&mut fields_out, "\" value=\"");
            push_str(&mut fields_out, value.as_str());
            push_str(&mut fields_out, "\" />");
            proof {
                let t = fs.take(i as int + 1);
                assert(t.drop_last() =~= fs.take(i as int));
                assert(t.last() == fs[i as int]);
                assert(fields_out@ =~= fields_html(t));
            }
            i = i + 1;
        }
        assert(fs.take(self.fields.len() as int) =~= fs);
        let mut html = String::new();
        push_str(&mut html, "<form name=\"");
        let n = escape_attr(self.name.as_str());
        push_str(&mut html, n.as_str());
        push_str(&mut html, "\" method=\"");
        let m = escape_attr(self.method.as_str());
        push_str(&mut html, m.as_str());
        push_str(&mut html, "\" action=\"");
        let a = escape_attr(self.action.as_str());
        push_str(&mut html, a.as_str());
        push_str(&mut html, "\">");
        push_str(&mut html, csrf.as_str());
        push_str(&mut html, fields_out.as_str());
        push_str(&mut html, "</form>");
        proof {
            if self.csrf_enabled {
                assert(csrf@ =~= csrf_html(self.csrf_token->0.value_view()));
            } else {
                assert(csrf@ =~= Seq::<char>::empty());
            }
        }
        Ok(RenderedForm { html })
    }
}

/// Names of fields.
pub open spec fn fields_names(fs: Seq<(Seq<char>, Seq<char>)>) -> Seq<Seq<char>> {
    fs.map_values(|f: (Seq<char>, Seq<char>)| f.0)
}

/// Fields with the given names and empty values.
pub open spec fn blank_fields(names: Seq<Seq<char>>) -> Seq<(Seq<char>, Seq<char>)> {
    names.map_values(|n: Seq<char>| (n, Seq::<char>::empty()))
}

/// Builds a [`Form`].
#[derive(Debug)]
pub struct FormBuilder {
    name: String,
    method: Method,
    action: String,
    fields: Vec<Field>,
    csrf_enabled: bool,
}

impl FormBuilder {
    #[verifier::type_invariant]
    closed spec fn blank(&self) -> bool {
        forall|i: int| 0 <= i < self.fields@.len() ==> self.fields@[i].value@ == Seq::<char>::empty()
    }

    pub closed spec fn name_view(&self) -> Seq<char> {
        self.name@
    }

    pub closed spec fn method_view(&self) -> Method {
        self.method
    }

    pub closed spec fn action_view(&self) -> Seq<char> {
        self.action@
    }

    pub closed spec fn fields_view(&self) -> Seq<Seq<char>> {
        self.fields@.map_values(|f: Field| f.name_view())
    }

    pub closed spec fn csrf_view(&self) -> bool {
        self.csrf_enabled
    }

    fn new(name: &str) -> (b: FormBuilder)
        ensures
            b.name_view() == name@,
            b.method_view() == Method::Post,
            b.action_view() == Seq::<char>::empty(),
            b.fields_view() == Seq::<Seq<char>>::empty(),
            b.csrf_view(),
    {
        let b = FormBuilder {
            name: name.to_owned(),
            method: Method::Post,
            action: String::new(),
            fields: Vec::new(),
            csrf_enabled: true,
        };
        assert(b.fields_view() =~= Seq::<Seq<char>>::empty());
        b
    }

    /// Sets the HTML method (default POST).
    pub fn method(self, method: Method) -> (b: FormBuilder)
        ensures
            b.method_view() == method,
            b.name_view() == self.name_view(),
            b.action_view() == self.action_view(),
            b.fields_view() == self.fields_view(),
            b.csrf_view() == self.csrf_view(),
    {
        proof {
            use_type_invariant(&self);
        }
        let FormBuilder { name, action, fields, csrf_enabled, .. } = self;
        FormBuilder { name, method, action, fields, csrf_enabled }
    }

    /// Sets the `action` URL (empty: the current path).
    pub fn action(self, action: &str) -> (b: FormBuilder)
        ensures
            b.action_view() == action@,
            b.name_view() == self.name_view(),
            b.method_view() == self.method_view(),
            b.fields_view() == self.fields_view(),
            b.csrf_view() == self.csrf_view(),
    {
        proof {
            use_type_invariant(&self);
        }
        let FormBuilder { name, method, fields, csrf_enabled, .. } = self;
        FormBuilder { name, method, action: action.to_owned(), fields, csrf_enabled }
    }

    /// Turns CSRF on or off (default on).
    pub fn csrf(self, enabled: bool) -> (b: FormBuilder)
        ensures
            b.csrf_view() == enabled,
            b.name_view() == self.name_view(),
            b.method_view() == self.method_view(),
            b.action_view() == self.action_view(),
            b.fields_view() == self.fields_view(),
    {
        proof {
            use_type_invariant(&self);
        }
        let FormBuilder { name, method, action, fields, .. } = self;
        FormBuilder { name, method, action, fields, csrf_enabled: enabled }
    }

    /// Adds an empty text field `name`.
    pub fn field(self, name: &str) -> (b: FormBuilder)
        ensures
            b.fields_view() == self.fields_view().push(name@),
            b.name_view() == self.name_view(),
            b.method_view() == self.method_view(),
            b.action_view() == self.action_view(),
            b.csrf_view() == self.csrf_view(),
    {
        proof {
            use_type_invariant(&self);
        }
        let FormBuilder { name: form_name, method, action, mut fields, csrf_enabled } = self;
        let ghost before = fields@;
        fields.push(Field { name: name.to_owned(), value: String::new() });
        assert(fields@.map_values(|f: Field| f.name_view()) =~= before.map_values(
            |f: Field| f.name_view(),
        ).push(name@));
        FormBuilder { name: form_name, method, action, fields, csrf_enabled }
    }

    /// The form: its fields empty, no CSRF token yet, not submitted.
    pub fn build(self) -> (f: Form)
        ensures
            f.name_view() == self.name_view(),
            f.method_view() == self.method_view(),
            f.action_view() == self.action_view(),
            f.csrf_on() == self.csrf_view(),
            f.fields_of() == blank_fields(self.fields_view()),
            f.token_view() is None,
            !f.submitted_view(),
    {
        proof {
            use_type_invariant(&self);
        }
        let f = Form {
            name: self.name,
            method: self.method,
            action: self.action,
            fields: self.fields,
            csrf_enabled: self.csrf_enabled,
            csrf_token: None,
            submitted: false,
        };
        assert(f.fields_of() =~= blank_fields(self.fields_view()));
        f
    }
}

} // verus!
