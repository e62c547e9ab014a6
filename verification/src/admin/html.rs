//! List and show HTML; every name, label, value and id is escaped.

use vstd::prelude::*;

use crate::admin::field::AdminField;
use crate::admin::resource::{trim_end_slashes, trim_end_slashes_exec, AdminResource};
use crate::admin::row::{row_value, AdminRow};
use crate::form::escape::{escape_html, escape_html_text};
use crate::text::{chars_of, push_chars, push_str};

verus! {

/// Header cells for the list columns.
pub open spec fn header_cells(fields: Seq<AdminField>) -> Seq<char>
    decreases fields.len(),
{
    if fields.len() == 0 {
        seq![]
    } else {
        header_cells(fields.drop_last()) + "<th>"@ + escape_html_text(fields.last().label_view())
            + "</th>"@
    }
}

/// Cells of one row for the list columns.
pub open spec fn row_cells(fields: Seq<AdminField>, values: Map<Seq<char>, Seq<char>>) -> Seq<char>
    decreases fields.len(),
{
    if fields.len() == 0 {
        seq![]
    } else {
        row_cells(fields.drop_last(), values) + "<td>"@ + escape_html_text(
            row_value(values, fields.last().name_view()),
        ) + "</td>"@
    }
}

/// Table rows, each with a link to its show page under `base`.
pub open spec fn list_rows(fields: Seq<AdminField>, base: Seq<char>, rows: Seq<AdminRow>) -> Seq<char>
    decreases rows.len(),
{
    if rows.len() == 0 {
        seq![]
    } else {
        list_rows(fields, base, rows.drop_last()) + "<tr>"@ + row_cells(
            fields,
            rows.last().values_view(),
        ) + "<td><a href=\""@ + base + "/"@ + escape_html_text(rows.last().id_view())
            + "\">show</a></td></tr>\n"@
    }
}

/// The list page of `resource` for `rows`.
pub open spec fn list_html(resource: AdminResource, rows: Seq<AdminRow>) -> Seq<char> {
    "<section class=\"serenade-admin-list\">\n"@ + "<h1>"@ + escape_html_text(resource.name_view())
        + "</h1>\n<table>\n<thead><tr>"@ + header_cells(resource.list_view())
        + "<th></th></tr></thead>\n<tbody>\n"@ + list_rows(
        resource.list_view(),
        trim_end_slashes(resource.list_path_view()),
        rows,
    ) + "</tbody>\n</table>\n</section>\n"@
}

/// Term/definition pairs for the show fields.
pub open spec fn show_items(fields: Seq<AdminField>, values: Map<Seq<char>, Seq<char>>) -> Seq<char>
    decreases fields.len(),
{
    if fields.len() == 0 {
        seq![]
    } else {
        show_items(fields.drop_last(), values) + "<dt>"@ + escape_html_text(
            fields.last().label_view(),
        ) + "</dt><dd>"@ + escape_html_text(row_value(values, fields.last().name_view()))
            + "</dd>\n"@
    }
}

/// The show page of `row`.
pub open spec fn show_html(resource: AdminResource, row: AdminRow) -> Seq<char> {
    "<section class=\"serenade-admin-show\">\n"@ + "<h1>"@ + escape_html_text(resource.name_view())
        + " #"@ + escape_html_text(row.id_view()) + "</h1>\n<dl>\n"@ + show_items(
        resource.show_view(),
        row.values_view(),
    ) + "</dl>\n<p><a href=\""@ + escape_html_text(resource.list_path_view())
        + "\">back to list</a></p>\n</section>\n"@
}

/// Appends the header cells.
fn push_header_cells(out: &mut String, fields: &[AdminField])
    ensures
        final(out)@ == old(out)@ + header_cells(fields@),
{
    let mut i: usize = 0;
    assert(fields@.take(0) =~= Seq::<AdminField>::empty());
    assert(old(out)@ + Seq::<char>::empty() =~= old(out)@);
    while i < fields.len()
        invariant
            i <= fields.len(),
            out@ == old(out)@ + header_cells(fields@.take(i as int)),
        decreases fields.len() - i,
    {
        let ghost before = out@;
        push_str(out, "<th>");
        let e = escape_html(fields[i].label());
        push_str(out, e.as_str());
        push_str(out, "</th>");
        proof {
            let t = fields@.take(i as int + 1);
            assert(t.drop_last() =~= fields@.take(i as int));
            assert(t.last() == fields@[i as int]);
            assert(out@ =~= old(out)@ + header_cells(t));
        }
        i = i + 1;
    }
    assert(fields@.take(fields.len() as int) =~= fields@);
}

/// Appends the cells of one row.
fn push_row_cells(out: &mut String, fields: &[AdminField], row: &AdminRow)
    ensures
        final(out)@ == old(out)@ + row_cells(fields@, row.values_view()),
{
    let mut i: usize = 0;
    assert(fields@.take(0) =~= Seq::<AdminField>::empty());
    assert(old(out)@ + Seq::<char>::empty() =~= old(out)@);
    while i < fields.len()
        invariant
            i <= fields.len(),
            out@ == old(out)@ + row_cells(fields@.take(i as int), row.values_view()),
        decreases fields.len() - i,
    {
        push_str(out, "<td>");
        let e = escape_html(row.get(fields[i].name()));
        push_str(out, e.as_str());
        push_str(out, "</td>");
        proof {
            let t = fields@.take(i as int + 1);
            assert(t.drop_last() =~= fields@.take(i as int));
            assert(t.last() == fields@[i as int]);
            assert(out@ =~= old(out)@ + row_cells(t, row.values_view()));
        }
        i = i + 1;
    }
    assert(fields@.take(fields.len() as int) =~= fields@);
}

/// HTML table of the list columns of `rows`, each row linking to its show
/// page.
pub fn render_list_html(resource: &AdminResource, rows: &[AdminRow]) -> (out: String)
    ensures
        out@ == list_html(*resource, rows@),
{
    let mut out = String::new();
    push_str(&mut out, "<section class=\"serenade-admin-list\">\n");
    push_str(&mut out, "<h1>");
    let name = escape_html(resource.name());
    push_str(&mut out, name.as_str());
    push_str(&mut out, "</h1>\n<table>\n<thead><tr>");
    push_header_cells(&mut out, resource.list());
    push_str(&mut out, "<th></th></tr></thead>\n<tbody>\n");
    let ghost head = out@;
    let list_path = resource.list_path();
    let lp = chars_of(list_path.as_str());
    let base = trim_end_slashes_exec(&lp);
    let fields = resource.list();
    let mut i: usize = 0;
    assert(rows@.take(0) =~= Seq::<AdminRow>::empty());
    assert(head + Seq::<char>::empty() =~= head);
    while i < rows.len()
        invariant
            i <= rows.len(),
            fields@ == resource.list_view(),
            base@ == trim_end_slashes(resource.list_path_view()),
            out@ == head + list_rows(fields@, base@, rows@.take(i as int)),
        decreases rows.len() - i,
    {
        push_str(&mut out, "<tr>");
        push_row_cells(&mut out, fields, &rows[i]);
        push_str(&mut out, "<td><a href=\"");
        push_chars(&mut out, &base);
        push_str(&mut out, "/");
        let id = escape_html(rows[i].id());
        push_str(&mut out, id.as_str());
        push_str(&mut out, "\">show</a></td></tr>\n");
        proof {
            let t = rows@.take(i as int + 1);
            assert(t.drop_last() =~= rows@.take(i as int));
            assert(t.last() == rows@[i as int]);
            assert(out@ =~= head + list_rows(fields@, base@, t));
        }
        i = i + 1;
    }
    assert(rows@.take(rows.len() as int) =~= rows@);
    push_str(&mut out, "</tbody>\n</table>\n</section>\n");
    assert(out@ =~= list_html(*resource, rows@));
    out
}

/// HTML definition list of the show fields of `row`, with a link back to the
/// list.
pub fn render_show_html(resource: &AdminResource, row: &AdminRow) -> (out: String)
    ensures
        out@ == show_html(*resource, *row),
{
    let mut out = String::new();
    push_str(&mut out, "<section class=\"serenade-admin-show\">\n");
    push_str(&mut out, "<h1>");
    let name = escape_html(resource.name());
    push_str(&mut out, name.as_str());
    push_str(&mut out, " #");
    let id = escape_html(row.id());
    push_str(&mut out, id.as_str());
    push_str(&mut out, "</h1>\n<dl>\n");
    let ghost head = out@;
    let fields = resource.show();
    let mut i: usize = 0;
    assert(fields@.take(0) =~= Seq::<AdminField>::empty());
    assert(head + Seq::<char>::empty() =~= head);
    while i < fields.len()
        invariant
            i <= fields.len(),
            out@ == head + show_items(fields@.take(i as int), row.values_view()),
        decreases fields.len() - i,
    {
        push_str(&mut out, "<dt>");
        let label = escape_html(fields[i].label());
        push_str(&mut out, label.as_str());
        push_str(&mut out, "</dt><dd>");
        let value = escape_html(row.get(fields[i].name()));
        push_str(&mut out, value.as_str());
        push_str(&mut out, "</dd>\n");
        proof {
            let t = fields@.take(i as int + 1);
            assert(t.drop_last() =~= fields@.take(i as int));
            assert(t.last() == fields@[i as int]);
            assert(out@ =~= head + show_items(t, row.values_view()));
        }
        i = i + 1;
    }
    assert(fields@.take(fields.len() as int) =~= fields@);
    push_str(&mut out, "</dl>\n<p><a href=\"");
    let lp = resource.list_path();
    let href = escape_html(lp.as_str());
    push_str(&mut out, href.as_str());
    push_str(&mut out, "\">back to list</a></p>\n</section>\n");
    assert(out@ =~= show_html(*resource, *row));
    out
}

} // verus!
