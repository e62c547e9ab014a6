//! Create, edit and delete forms built from a resource's form fields.

use vstd::prelude::*;

use crate::admin::field::AdminField;
use crate::admin::resource::{join_prefix_text, AdminResource};
use crate::admin::row::AdminRow;
use crate::form::error::FormError;
use crate::form::escape::{escape_html, escape_html_text};
use crate::form::form::{blank_fields, first_named, form_markup, token_accepted, Form};
use crate::http::method::Method;
use crate::security::csrf::{CsrfToken, CsrfTokenManager};
use crate::security::error::SecurityError;
use crate::session::map::pairs_view;
use crate::text::push_str;

verus! {

/// Form name `admin_<resource><suffix>`.
pub open spec fn form_name(resource: Seq<char>, suffix: Seq<char>) -> Seq<char> {
    "admin_"@ + resource + suffix
}

/// Names of fields.
pub open spec fn field_names(fs: Seq<AdminField>) -> Seq<Seq<char>> {
    fs.map_values(|f: AdminField| f.name_view())
}

/// `f` is a POST form named `name` for `action` with CSRF on.
pub open spec fn admin_form(f: Form, name: Seq<char>, action: Seq<char>) -> bool {
    &&& f.name_view() == name
    &&& f.method_view() == Method::Post
    &&& f.action_view() == action
    &&& f.csrf_on()
}

/// `f` is such a form, unbound, without token, with empty fields `names`.
pub open spec fn fresh_form(f: Form, name: Seq<char>, action: Seq<char>, names: Seq<Seq<char>>) -> bool {
    &&& admin_form(f, name, action)
    &&& f.fields_of() == blank_fields(names)
    &&& f.token_view() is None
    &&& !f.submitted_view()
}

/// Create/edit form `admin_<name>_form` posting to `action`, one text field
/// per form field of the resource.
pub fn build_resource_form(resource: &AdminResource, action: &str) -> (f: Form)
    ensures
        fresh_form(
            f,
            form_name(resource.name_view(), "_form"@),
            action@,
            field_names(resource.form_view()),
        ),
{
    let mut name = String::new();
    push_str(&mut name, "admin_");
    push_str(&mut name, resource.name());
    push_str(&mut name, "_form");
    let mut builder = Form::builder(name.as_str()).method(Method::Post).action(action).csrf(true);
    let fields = resource.form();
    let mut i: usize = 0;
    assert(field_names(fields@).take(0) =~= Seq::<Seq<char>>::empty());
    while i < fields.len()
        invariant
            i <= fields.len(),
            builder.name_view() == name@,
            builder.method_view() == Method::Post,
            builder.action_view() == action@,
            builder.csrf_view(),
            builder.fields_view() == field_names(fields@).take(i as int),
        decreases fields.len() - i,
    {
        builder = builder.field(fields[i].name());
        assert(field_names(fields@).take(i as int + 1) =~= field_names(fields@).take(i as int).push(
            fields@[i as int].name_view(),
        ));
        i = i + 1;
    }
    assert(field_names(fields@).take(fields.len() as int) =~= field_names(fields@));
    builder.build()
}

/// Sets the first field named `n` to `v`, when there is one.
pub open spec fn set_first(fs: Seq<(Seq<char>, Seq<char>)>, n: Seq<char>, v: Seq<char>) -> Seq<
    (Seq<char>, Seq<char>),
> {
    match first_named(fs, n) {
        Some(i) => fs.update(i, (n, v)),
        None => fs,
    }
}

/// Field values after setting each pair in turn.
pub open spec fn prefill_fields(
    fs: Seq<(Seq<char>, Seq<char>)>,
    pairs: Seq<(Seq<char>, Seq<char>)>,
) -> Seq<(Seq<char>, Seq<char>)>
    decreases pairs.len(),
{
    if pairs.len() == 0 {
        fs
    } else {
        set_first(prefill_fields(fs, pairs.drop_last()), pairs.last().0, pairs.last().1)
    }
}

/// Sets the form's fields from the row's values (fields the row has no value
/// for keep theirs).
pub fn prefill_resource_form(form: &mut Form, row: &AdminRow)
    ensures
        old(form).same_shape(&*final(form)),
        final(form).token_view() == old(form).token_view(),
        final(form).submitted_view() == old(form).submitted_view(),
        final(form).fields_of() == prefill_fields(old(form).fields_of(), row.value_pairs()),
{
    let pairs = row.values().to_pairs();
    let ghost ps = pairs_view(pairs@);
    let mut i: usize = 0;
    assert(ps.take(0) =~= Seq::<(Seq<char>, Seq<char>)>::empty());
    while i < pairs.len()
        invariant
            i <= pairs.len(),
            ps == pairs_view(pairs@),
            ps == row.value_pairs(),
            old(form).same_shape(&*form),
            form.token_view() == old(form).token_view(),
            form.submitted_view() == old(form).submitted_view(),
            form.fields_of() == prefill_fields(old(form).fields_of(), ps.take(i as int)),
        decreases pairs.len() - i,
    {
        let _ = form.set(pairs[i].0.as_str(), pairs[i].1.as_str());
        assert(ps.take(i as int + 1).drop_last() =~= ps.take(i as int));
        assert(ps.take(i as int + 1).last() == ps[i as int]);
        i = i + 1;
    }
    assert(ps.take(pairs.len() as int) =~= ps);
}

/// Delete confirmation form `admin_<name>_delete` posting to `action`: only
/// the CSRF field.
pub fn build_delete_form(resource: &AdminResource, action: &str) -> (f: Form)
    ensures
        fresh_form(
            f,
            form_name(resource.name_view(), "_delete"@),
            action@,
            Seq::<Seq<char>>::empty(),
        ),
{
    let mut name = String::new();
    push_str(&mut name, "admin_");
    push_str(&mut name, resource.name());
    push_str(&mut name, "_delete");
    Form::builder(name.as_str()).method(Method::Post).action(action).csrf(true).build()
}

/// Gets a CSRF token for the form, then renders it.
pub fn render_prepared_form<M: CsrfTokenManager + ?Sized>(form: &mut Form, manager: &M) -> (r: Result<
    String,
    FormError,
>)
    ensures
        old(form).same_shape(&*final(form)),
        final(form).fields_of() == old(form).fields_of(),
        r matches Ok(s) ==> s@ == form_markup(*final(form)) && (final(form).csrf_on()
            ==> final(form).token_view() is Some),
        !old(form).csrf_on() ==> (r matches Ok(s) && s@ == form_markup(*old(form))
            && final(form).token_view() == old(form).token_view()),
        r matches Err(e) ==> e is Csrf && final(form).token_view() == old(form).token_view(),
        old(form).csrf_on() ==> exists|a: Result<CsrfToken, SecurityError>|
            #[trigger] manager.issued(old(form).name_view(), a) && match a {
                Ok(t) => r matches Ok(s) && s@ == form_markup(*final(form))
                    && final(form).token_view() == Some(t),
                Err(e) => r == Err::<String, FormError>(FormError::Csrf(e))
                    && final(form).token_view() == old(form).token_view(),
            },
{
    let ghost f0 = *form;
    let prepared = form.prepare_csrf(manager);
    let ghost a: Result<CsrfToken, SecurityError> = choose|a: Result<CsrfToken, SecurityError>|
        #[trigger] manager.issued(f0.name_view(), a) && token_accepted(
            a,
            prepared,
            f0.token_view(),
            form.token_view(),
        );
    match prepared {
        Ok(()) => {},
        Err(e) => {
            proof {
                if f0.csrf_on() {
                    assert(manager.issued(f0.name_view(), a));
                }
            }
            return Err(e);
        },
    }
    let r = match form.render() {
        Ok(rendered) => Ok(rendered.as_html().to_owned()),
        Err(e) => Err(e),
    };
    proof {
        if f0.csrf_on() {
            assert(manager.issued(f0.name_view(), a));
        }
    }
    r
}

/// `<section class="serenade-admin-<kind>">` around a form.
pub open spec fn form_section(name: Seq<char>, kind: Seq<char>, body: Seq<char>) -> Seq<char> {
    "<section class=\"serenade-admin-"@ + kind + "\">\n<h1>"@ + escape_html_text(name) + " "@ + kind
        + "</h1>\n"@ + body + "\n</section>\n"@
}

/// Wraps a rendered form in its admin section.
pub fn wrap_form_section(resource: &AdminResource, kind: &str, body: &str) -> (r: String)
    ensures
        r@ == form_section(resource.name_view(), kind@, body@),
{
    let mut out = String::new();
    push_str(&mut out, "<section class=\"serenade-admin-");
    push_str(&mut out, kind);
    push_str(&mut out, "\">\n<h1>");
    let n = escape_html(resource.name());
    push_str(&mut out, n.as_str());
    push_str(&mut out, " ");
    push_str(&mut out, kind);
    push_str(&mut out, "</h1>\n");
    push_str(&mut out, body);
    push_str(&mut out, "\n</section>\n");
    out
}

/// Create page: the resource form posting to the new path, with a CSRF token.
pub fn render_new_form_html<M: CsrfTokenManager + ?Sized>(resource: &AdminResource, manager: &M) -> (r:
    Result<String, FormError>)
    ensures
        r matches Ok(s) ==> exists|f: Form|
            admin_form(
                f,
                form_name(resource.name_view(), "_form"@),
                join_prefix_text(resource.list_path_view(), "new"@),
            ) && f.fields_of() == blank_fields(field_names(resource.form_view()))
                && f.token_view() is Some && s@ == form_section(
                resource.name_view(),
                "new"@,
                form_markup(f),
            ),
        r matches Err(e) ==> e is Csrf,
        exists|a: Result<CsrfToken, SecurityError>|
            #[trigger] manager.issued(form_name(resource.name_view(), "_form"@), a) && match a {
                Ok(t) => r matches Ok(s) && exists|f: Form|
                    admin_form(f, form_name(resource.name_view(), "_form"@), join_prefix_text(resource.list_path_view(), "new"@))
                        && f.fields_of() == blank_fields(field_names(resource.form_view())) && f.token_view() == Some(t) && s@
                        == form_section(resource.name_view(), "new"@, form_markup(f)),
                Err(e) => r == Err::<String, FormError>(FormError::Csrf(e)),
            },
{
    let path = resource.new_path();
    let mut form = build_resource_form(resource, path.as_str());
    let ghost f0 = form;
    let rendered = render_prepared_form(&mut form, manager);
    let ghost a: Result<CsrfToken, SecurityError> = choose|a: Result<CsrfToken, SecurityError>|
        #[trigger] manager.issued(f0.name_view(), a) && match a {
            Ok(t) => rendered matches Ok(s) && s@ == form_markup(form) && form.token_view() == Some(t),
            Err(e) => rendered == Err::<String, FormError>(FormError::Csrf(e)) && form.token_view()
                == f0.token_view(),
        };
    assert(manager.issued(f0.name_view(), a));
    let body = match rendered {
        Ok(b) => b,
        Err(e) => {
            return Err(e);
        },
    };
    let r = wrap_form_section(resource, "new", body.as_str());
    assert(admin_form(form, f0.name_view(), f0.action_view()));
    Ok(r)
}

/// Edit page: the resource form posting to the row's edit path, filled from
/// the row, with a CSRF token.
pub fn render_edit_form_html<M: CsrfTokenManager + ?Sized>(
    resource: &AdminResource,
    row: &AdminRow,
    manager: &M,
) -> (r: Result<String, FormError>)
    ensures
        r matches Ok(s) ==> exists|f: Form|
            admin_form(
                f,
                form_name(resource.name_view(), "_form"@),
                join_prefix_text(
                    join_prefix_text(resource.list_path_view(), row.id_view()),
                    "edit"@,
                ),
            ) && f.fields_of() == prefill_fields(
                blank_fields(field_names(resource.form_view())),
                row.value_pairs(),
            ) && f.token_view() is Some && s@ == form_section(
                resource.name_view(),
                "edit"@,
                form_markup(f),
            ),
        r matches Err(e) ==> e is Csrf,
        exists|a: Result<CsrfToken, SecurityError>|
            #[trigger] manager.issued(form_name(resource.name_view(), "_form"@), a) && match a {
                Ok(t) => r matches Ok(s) && exists|f: Form|
                    admin_form(f, form_name(resource.name_view(), "_form"@), join_prefix_text(join_prefix_text(resource.list_path_view(), row.id_view()), "edit"@))
                        && f.fields_of() == prefill_fields(blank_fields(field_names(resource.form_view())), row.value_pairs()) && f.token_view() == Some(t) && s@
                        == form_section(resource.name_view(), "edit"@, form_markup(f)),
                Err(e) => r == Err::<String, FormError>(FormError::Csrf(e)),
            },
{
    let path = resource.edit_path_for(row.id());
    let mut form = build_resource_form(resource, path.as_str());
    prefill_resource_form(&mut form, row);
    let ghost f0 = form;
    let rendered = render_prepared_form(&mut form, manager);
    let ghost a: Result<CsrfToken, SecurityError> = choose|a: Result<CsrfToken, SecurityError>|
        #[trigger] manager.issued(f0.name_view(), a) && match a {
            Ok(t) => rendered matches Ok(s) && s@ == form_markup(form) && form.token_view() == Some(t),
            Err(e) => rendered == Err::<String, FormError>(FormError::Csrf(e)) && form.token_view()
                == f0.token_view(),
        };
    assert(manager.issued(f0.name_view(), a));
    let body = match rendered {
        Ok(b) => b,
        Err(e) => {
            return Err(e);
        },
    };
    let r = wrap_form_section(resource, "edit", body.as_str());
    assert(admin_form(form, f0.name_view(), f0.action_view()));
    Ok(r)
}

/// Delete page: a CSRF-only form posting to the delete path of `id`.
pub fn render_delete_form_html<M: CsrfTokenManager + ?Sized>(
    resource: &AdminResource,
    id: &str,
    manager: &M,
) -> (r: Result<String, FormError>)
    ensures
        r matches Ok(s) ==> exists|f: Form|
            admin_form(
                f,
                form_name(resource.name_view(), "_delete"@),
                join_prefix_text(join_prefix_text(resource.list_path_view(), id@), "delete"@),
            ) && f.fields_of() == Seq::<(Seq<char>, Seq<char>)>::empty() && f.token_view() is Some
                && s@ == form_section(resource.name_view(), "delete"@, form_markup(f)),
        r matches Err(e) ==> e is Csrf,
        exists|a: Result<CsrfToken, SecurityError>|
            #[trigger] manager.issued(form_name(resource.name_view(), "_delete"@), a) && match a {
                Ok(t) => r matches Ok(s) && exists|f: Form|
                    admin_form(f, form_name(resource.name_view(), "_delete"@), join_prefix_text(join_prefix_text(resource.list_path_view(), id@), "delete"@))
                        && f.fields_of() == Seq::<(Seq<char>, Seq<char>)>::empty() && f.token_view() == Some(t) && s@
                        == form_section(resource.name_view(), "delete"@, form_markup(f)),
                Err(e) => r == Err::<String, FormError>(FormError::Csrf(e)),
            },
{
    let path = resource.delete_path_for(id);
    let mut form = build_delete_form(resource, path.as_str());
    let ghost f0 = form;
    let rendered = render_prepared_form(&mut form, manager);
    let ghost a: Result<CsrfToken, SecurityError> = choose|a: Result<CsrfToken, SecurityError>|
        #[trigger] manager.issued(f0.name_view(), a) && match a {
            Ok(t) => rendered matches Ok(s) && s@ == form_markup(form) && form.token_view() == Some(t),
            Err(e) => rendered == Err::<String, FormError>(FormError::Csrf(e)) && form.token_view()
                == f0.token_view(),
        };
    assert(manager.issued(f0.name_view(), a));
    let body = match rendered {
        Ok(b) => b,
        Err(e) => {
            return Err(e);
        },
    };
    let r = wrap_form_section(resource, "delete", body.as_str());
    assert(admin_form(form, f0.name_view(), f0.action_view()));
    Ok(r)
}

} // verus!
