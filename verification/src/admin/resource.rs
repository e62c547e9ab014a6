//! Admin resource descriptor: one CRUD surface with its fields, route names
//! and paths.

use vstd::prelude::*;

use crate::admin::field::AdminField;
use crate::text::{chars_of, push_chars, push_str, str_eq, string_of};

verus! {

/// `s` without its trailing `/` characters.
pub open spec fn trim_end_slashes(s: Seq<char>) -> Seq<char>
    decreases s.len(),
{
    if s.len() > 0 && s.last() == '/' {
        trim_end_slashes(s.drop_last())
    } else {
        s
    }
}

/// List path of a prefix: trailing slashes dropped, a leading `/` added when
/// missing, `/` for an empty result.
pub open spec fn normalize_prefix_text(prefix: Seq<char>) -> Seq<char> {
    let t = trim_end_slashes(prefix);
    if t.len() == 0 {
        seq!['/']
    } else if t[0] == '/' {
        t
    } else {
        seq!['/'] + t
    }
}

/// `prefix/segment`, without doubling the slash of the root prefix.
pub open spec fn join_prefix_text(prefix: Seq<char>, segment: Seq<char>) -> Seq<char> {
    if prefix == seq!['/'] {
        seq!['/'] + segment
    } else {
        prefix + seq!['/'] + segment
    }
}

/// What comes before a row's id in the row paths under the list path
/// `list`: `list/` (just `/` at the root).
pub open spec fn id_slot(list: Seq<char>) -> Seq<char> {
    join_prefix_text(list, Seq::<char>::empty())
}

/// A row's paths are the path patterns with the `{id}` placeholder replaced
/// by the (non-empty) id, inserted as it is: with the same text `a` before
/// and `b` after, the show, edit and delete patterns are `a{id}b` and the
/// paths for `id` are `a<id>b`.
pub proof fn lemma_row_paths_fill_placeholder(list: Seq<char>, id: Seq<char>)
    requires
        id.len() > 0,
    ensures
        join_prefix_text(list, "{id}"@) == id_slot(list) + "{id}"@,
        join_prefix_text(list, id) == id_slot(list) + id,
        join_prefix_text(join_prefix_text(list, "{id}"@), "edit"@) == id_slot(list) + "{id}"@
            + "/edit"@,
        join_prefix_text(join_prefix_text(list, id), "edit"@) == id_slot(list) + id + "/edit"@,
        join_prefix_text(join_prefix_text(list, "{id}"@), "delete"@) == id_slot(list) + "{id}"@
            + "/delete"@,
        join_prefix_text(join_prefix_text(list, id), "delete"@) == id_slot(list) + id
            + "/delete"@,
{
    reveal_strlit("{id}");
    reveal_strlit("/edit");
    reveal_strlit("edit");
    reveal_strlit("/delete");
    reveal_strlit("delete");
    let e = Seq::<char>::empty();
    if list == seq!['/'] {
        assert(seq!['/'] + e =~= seq!['/']);
    } else {
        assert(list + seq!['/'] + e =~= list + seq!['/']);
    }
    let t = "{id}"@;
    assert(join_prefix_text(list, t) =~= id_slot(list) + t);
    assert(join_prefix_text(list, id) =~= id_slot(list) + id);
    assert(join_prefix_text(list, t).len() >= 2);
    assert(join_prefix_text(list, id).len() >= 2);
    assert(join_prefix_text(list, t) != seq!['/']);
    assert(join_prefix_text(list, id) != seq!['/']);
    assert(id_slot(list) + t + seq!['/'] + "edit"@ =~= id_slot(list) + t + "/edit"@);
    assert(id_slot(list) + id + seq!['/'] + "edit"@ =~= id_slot(list) + id + "/edit"@);
    assert(id_slot(list) + t + seq!['/'] + "delete"@ =~= id_slot(list) + t + "/delete"@);
    assert(id_slot(list) + id + seq!['/'] + "delete"@ =~= id_slot(list) + id + "/delete"@);
}

/// Whether `pat` occurs in `s`.
pub open spec fn occurs(pat: Seq<char>, s: Seq<char>) -> bool {
    exists|i: int| 0 <= i && i + pat.len() <= s.len() && #[trigger] s.subrange(i, i + pat.len()) == pat
}

/// `s` with each occurrence of the non-empty `pat`, found left to right
/// without overlap, replaced by `by` (what `str::replace` gives).
pub open spec fn replace_all(s: Seq<char>, pat: Seq<char>, by: Seq<char>) -> Seq<char>
    decreases s.len(),
{
    if pat.len() == 0 || s.len() < pat.len() {
        s
    } else if s.take(pat.len() as int) == pat {
        by + replace_all(s.skip(pat.len() as int), pat, by)
    } else {
        seq![s[0]] + replace_all(s.drop_first(), pat, by)
    }
}

/// Text without a `{` is left as it is.
proof fn lemma_replace_all_without_brace(s: Seq<char>, by: Seq<char>)
    requires
        !s.contains('{'),
    ensures
        replace_all(s, "{id}"@, by) == s,
    decreases s.len(),
{
    reveal_strlit("{id}");
    let p = "{id}"@;
    if s.len() >= p.len() {
        assert(s.take(4)[0] == s[0]);
        assert(s.take(4) != p);
        assert(!s.drop_first().contains('{')) by {
            if s.drop_first().contains('{') {
                let j = choose|j: int| 0 <= j < s.drop_first().len() && s.drop_first()[j] == '{';
                assert(s[j + 1] == '{');
            }
        }
        lemma_replace_all_without_brace(s.drop_first(), by);
        assert(seq![s[0]] + s.drop_first() =~= s);
    }
}

/// Text `a` holding no `{id}`, followed by text that starts with `{`, is
/// passed over unchanged: no occurrence starts inside `a`.
proof fn lemma_replace_all_passes_over(a: Seq<char>, rest: Seq<char>, by: Seq<char>)
    requires
        !occurs("{id}"@, a),
        rest.len() >= 4,
        rest[0] == '{',
    ensures
        replace_all(a + rest, "{id}"@, by) == a + replace_all(rest, "{id}"@, by),
    decreases a.len(),
{
    reveal_strlit("{id}");
    let p = "{id}"@;
    let s = a + rest;
    if a.len() == 0 {
        assert(s =~= rest);
        assert(a + replace_all(rest, p, by) =~= replace_all(rest, p, by));
    } else {
        assert(s.take(4) != p) by {
            if a.len() >= 4 {
                assert(a.subrange(0, 4) =~= s.take(4));
                assert(a.subrange(0, 0 + p.len() as int) != p);
            } else {
                let k = a.len() as int;
                assert(s.take(4)[k] == '{');
                assert(p[k] != '{');
            }
        }
        assert(!occurs(p, a.drop_first())) by {
            if occurs(p, a.drop_first()) {
                let i = choose|i: int|
                    0 <= i && i + p.len() <= a.drop_first().len() && #[trigger] a.drop_first().subrange(
                        i,
                        i + p.len(),
                    ) == p;
                assert(a.subrange(i + 1, i + 1 + p.len()) =~= a.drop_first().subrange(i, i + p.len()));
            }
        }
        lemma_replace_all_passes_over(a.drop_first(), rest, by);
        assert(s.drop_first() =~= a.drop_first() + rest);
        assert(seq![a[0]] + (a.drop_first() + replace_all(rest, p, by)) =~= a + replace_all(
            rest,
            p,
            by,
        ));
    }
}

/// The path's text before the placeholder holds no `{id}` when the prefix
/// holds none.
proof fn lemma_slot_free(prefix: Seq<char>)
    requires
        !occurs("{id}"@, prefix),
    ensures
        !occurs("{id}"@, id_slot(normalize_prefix_text(prefix))),
{
    reveal_strlit("{id}");
    let p = "{id}"@;
    let t = trim_end_slashes(prefix);
    lemma_trim_is_prefix(prefix);
    assert(!occurs(p, t)) by {
        if occurs(p, t) {
            let i = choose|i: int| 0 <= i && i + p.len() <= t.len() && #[trigger] t.subrange(i, i + p.len()) == p;
            assert(prefix.subrange(i, i + p.len()) =~= t.subrange(i, i + p.len()));
        }
    }
    let list = normalize_prefix_text(prefix);
    assert(!occurs(p, list)) by {
        if t.len() > 0 && t[0] != '/' && occurs(p, list) {
            let i = choose|i: int| 0 <= i && i + p.len() <= list.len() && #[trigger] list.subrange(i, i + p.len()) == p;
            if i == 0 {
                assert(list.subrange(0, 4)[0] == '/');
            } else {
                assert(t.subrange(i - 1, i - 1 + p.len()) =~= list.subrange(i, i + p.len()));
            }
        }
    }
    let slot = id_slot(list);
    if list == seq!['/'] {
        assert(slot =~= seq!['/']);
    } else {
        assert(slot =~= list + seq!['/']);
        if occurs(p, slot) {
            let i = choose|i: int| 0 <= i && i + p.len() <= slot.len() && #[trigger] slot.subrange(i, i + p.len()) == p;
            if i + p.len() <= list.len() {
                assert(list.subrange(i, i + p.len()) =~= slot.subrange(i, i + p.len()));
            } else {
                assert(slot.subrange(i, i + p.len())[3] == '/');
            }
        }
    }
}

/// Dropping trailing slashes keeps a prefix of the text.
proof fn lemma_trim_is_prefix(s: Seq<char>)
    ensures
        trim_end_slashes(s).len() <= s.len(),
        trim_end_slashes(s) == s.take(trim_end_slashes(s).len() as int),
    decreases s.len(),
{
    if s.len() > 0 && s.last() == '/' {
        lemma_trim_is_prefix(s.drop_last());
        let t = trim_end_slashes(s.drop_last());
        assert(s.drop_last().take(t.len() as int) =~= s.take(t.len() as int));
    } else {
        assert(s.take(s.len() as int) =~= s);
    }
}

/// `slot{id}suffix` with the placeholder replaced is `slot<id>suffix`, when
/// `slot` holds no `{id}` and `suffix` no `{`.
proof fn lemma_replace_placeholder(slot: Seq<char>, suffix: Seq<char>, id: Seq<char>)
    requires
        !occurs("{id}"@, slot),
        !suffix.contains('{'),
    ensures
        replace_all(slot + "{id}"@ + suffix, "{id}"@, id) == slot + id + suffix,
{
    reveal_strlit("{id}");
    let p = "{id}"@;
    let rest = p + suffix;
    assert(slot + p + suffix =~= slot + rest);
    lemma_replace_all_passes_over(slot, rest, id);
    assert(rest.take(4) =~= p);
    assert(rest.skip(4) =~= suffix);
    lemma_replace_all_without_brace(suffix, id);
    assert(slot + (id + suffix) =~= slot + id + suffix);
}

/// A row's show, edit and delete paths for a non-empty `id` are the path
/// patterns with `{id}` replaced by `id` (inserted as it is), as
/// `str::replace` replaces it, when the resource's path prefix holds no
/// `{id}` of its own.
pub proof fn lemma_row_paths_replace_placeholder(r: AdminResource, id: Seq<char>)
    requires
        id.len() > 0,
        !occurs("{id}"@, r.prefix_view()),
    ensures
        join_prefix_text(r.list_path_view(), id) == replace_all(
            join_prefix_text(r.list_path_view(), "{id}"@),
            "{id}"@,
            id,
        ),
        join_prefix_text(join_prefix_text(r.list_path_view(), id), "edit"@) == replace_all(
            join_prefix_text(join_prefix_text(r.list_path_view(), "{id}"@), "edit"@),
            "{id}"@,
            id,
        ),
        join_prefix_text(join_prefix_text(r.list_path_view(), id), "delete"@) == replace_all(
            join_prefix_text(join_prefix_text(r.list_path_view(), "{id}"@), "delete"@),
            "{id}"@,
            id,
        ),
{
    reveal_strlit("/edit");
    reveal_strlit("/delete");
    let list = r.list_path_view();
    let slot = id_slot(list);
    lemma_row_paths_fill_placeholder(list, id);
    lemma_slot_free(r.prefix_view());
    let e = Seq::<char>::empty();
    lemma_replace_placeholder(slot, e, id);
    assert(slot + "{id}"@ + e =~= slot + "{id}"@);
    assert(slot + id + e =~= slot + id);
    assert(!"/edit"@.contains('{'));
    assert(!"/delete"@.contains('{'));
    lemma_replace_placeholder(slot, "/edit"@, id);
    lemma_replace_placeholder(slot, "/delete"@, id);
}

/// Route name `admin_<name>_<action>`.
pub open spec fn admin_route_name(name: Seq<char>, action: Seq<char>) -> Seq<char> {
    "admin_"@ + name + "_"@ + action
}

/// Removes trailing `/` characters.
pub fn trim_end_slashes_exec(s: &[char]) -> (out: Vec<char>)
    ensures
        out@ == trim_end_slashes(s@),
{
    let mut n: usize = s.len();
    proof {
        assert(s@.take(n as int) =~= s@);
    }
    while n > 0 && s[n - 1] == '/'
        invariant
            n <= s.len(),
            trim_end_slashes(s@) == trim_end_slashes(s@.take(n as int)),
        decreases n,
    {
        assert(s@.take(n as int).drop_last() =~= s@.take(n as int - 1));
        n = n - 1;
    }
    crate::text::slice_chars(s, 0, n)
}

/// List path for `prefix` (see [`normalize_prefix_text`]).
pub fn normalize_prefix(prefix: &str) -> (out: String)
    ensures
        out@ == normalize_prefix_text(prefix@),
{
    let v = chars_of(prefix);
    let t = trim_end_slashes_exec(&v);
    let mut out = String::new();
    if t.len() == 0 {
        crate::text::push_char(&mut out, '/');
        assert(out@ =~= seq!['/']);
    } else if t[0] == '/' {
        push_chars(&mut out, &t);
        assert(out@ =~= t@);
    } else {
        crate::text::push_char(&mut out, '/');
        push_chars(&mut out, &t);
        assert(out@ =~= seq!['/'] + t@);
    }
    out
}

/// `prefix/segment` (see [`join_prefix_text`]).
pub fn join_prefix(prefix: &str, segment: &str) -> (out: String)
    ensures
        out@ == join_prefix_text(prefix@, segment@),
{
    let mut out = String::new();
    let root = "/";
    proof {
        reveal_strlit("/");
        assert(root@ =~= seq!['/']);
    }
    if str_eq(prefix, root) {
        crate::text::push_char(&mut out, '/');
        push_str(&mut out, segment);
        assert(out@ =~= seq!['/'] + segment@);
    } else {
        push_str(&mut out, prefix);
        crate::text::push_char(&mut out, '/');
        push_str(&mut out, segment);
        assert(prefix@ != seq!['/']);
        assert(out@ =~= prefix@ + seq!['/'] + segment@);
    }
    out
}

/// `prefix/{id}`.
pub fn join_id_pattern(prefix: &str) -> (out: String)
    ensures
        out@ == join_prefix_text(prefix@, "{id}"@),
{
    join_prefix(prefix, "{id}")
}

/// `prefix/<id>`.
pub fn join_id(prefix: &str, id: &str) -> (out: String)
    ensures
        out@ == join_prefix_text(prefix@, id@),
{
    join_prefix(prefix, id)
}

/// Configuration of one admin resource.
#[derive(Clone, Debug)]
pub struct AdminResource {
    name: String,
    path_prefix: String,
    list_fields: Vec<AdminField>,
    show_fields: Vec<AdminField>,
    form_fields: Vec<AdminField>,
}

/// Show or form fields: the given ones, or the list fields when none are given.
pub open spec fn or_list(fields: Seq<AdminField>, list: Seq<AdminField>) -> Seq<AdminField> {
    if fields.len() == 0 {
        list
    } else {
        fields
    }
}

impl AdminResource {
    pub closed spec fn name_view(&self) -> Seq<char> {
        self.name@
    }

    pub closed spec fn prefix_view(&self) -> Seq<char> {
        self.path_prefix@
    }

    pub closed spec fn list_view(&self) -> Seq<AdminField> {
        self.list_fields@
    }

    /// Show fields as set (possibly none).
    pub closed spec fn show_own(&self) -> Seq<AdminField> {
        self.show_fields@
    }

    /// Form fields as set (possibly none).
    pub closed spec fn form_own(&self) -> Seq<AdminField> {
        self.form_fields@
    }

    /// Fields of the show page.
    pub open spec fn show_view(&self) -> Seq<AdminField> {
        or_list(self.show_own(), self.list_view())
    }

    /// Fields of the create/edit form.
    pub open spec fn form_view(&self) -> Seq<AdminField> {
        or_list(self.form_own(), self.list_view())
    }

    /// The list path.
    pub open spec fn list_path_view(&self) -> Seq<char> {
        normalize_prefix_text(self.prefix_view())
    }

    /// Resource `name` under `path_prefix` (meant to start with `/`), without
    /// fields.
    pub fn new(name: &str, path_prefix: &str) -> (r: AdminResource)
        ensures
            r.name_view() == name@,
            r.prefix_view() == path_prefix@,
            r.list_view() == Seq::<AdminField>::empty(),
            r.show_own() == Seq::<AdminField>::empty(),
            r.form_own() == Seq::<AdminField>::empty(),
    {
        AdminResource {
            name: name.to_owned(),
            path_prefix: path_prefix.to_owned(),
            list_fields: Vec::new(),
            show_fields: Vec::new(),
            form_fields: Vec::new(),
        }
    }

    /// Sets the list columns.
    pub fn list_fields(self, fields: Vec<AdminField>) -> (r: AdminResource)
        ensures
            r.name_view() == self.name_view(),
            r.prefix_view() == self.prefix_view(),
            r.list_view() == fields@,
            r.show_own() == self.show_own(),
            r.form_own() == self.form_own(),
    {
        let mut r = self;
        r.list_fields = fields;
        r
    }

    /// Sets the show fields.
    pub fn show_fields(self, fields: Vec<AdminField>) -> (r: AdminResource)
        ensures
            r.name_view() == self.name_view(),
            r.prefix_view() == self.prefix_view(),
            r.list_view() == self.list_view(),
            r.show_own() == fields@,
            r.form_own() == self.form_own(),
    {
        let mut r = self;
        r.show_fields = fields;
        r
    }

    /// Sets the create/edit form fields.
    pub fn form_fields(self, fields: Vec<AdminField>) -> (r: AdminResource)
        ensures
            r.name_view() == self.name_view(),
            r.prefix_view() == self.prefix_view(),
            r.list_view() == self.list_view(),
            r.show_own() == self.show_own(),
            r.form_own() == fields@,
    {
        let mut r = self;
        r.form_fields = fields;
        r
    }

    /// Resource name (used in route names).
    pub fn name(&self) -> (r: &str)
        ensures
            r@ == self.name_view(),
    {
        self.name.as_str()
    }

    /// Path prefix as given.
    pub fn path_prefix(&self) -> (r: &str)
        ensures
            r@ == self.prefix_view(),
    {
        self.path_prefix.as_str()
    }

    /// List columns.
    pub fn list(&self) -> (r: &[AdminField])
        ensures
            r@ == self.list_view(),
    {
        self.list_fields.as_slice()
    }

    /// Show fields; the list fields when none were set.
    pub fn show(&self) -> (r: &[AdminField])
        ensures
            r@ == self.show_view(),
    {
        if self.show_fields.len() == 0 {
            self.list_fields.as_slice()
        } else {
            self.show_fields.as_slice()
        }
    }

    /// Form fields; the list fields when none were set.
    pub fn form(&self) -> (r: &[AdminField])
        ensures
            r@ == self.form_view(),
    {
        if self.form_fields.len() == 0 {
            self.list_fields.as_slice()
        } else {
            self.form_fields.as_slice()
        }
    }

    fn route_name(&self, action: &str) -> (r: String)
        ensures
            r@ == admin_route_name(self.name_view(), action@),
    {
        let mut out = String::new();
        push_str(&mut out, "admin_");
        push_str(&mut out, self.name.as_str());
        push_str(&mut out, "_");
        push_str(&mut out, action);
        out
    }

    /// `admin_<name>_list`.
    pub fn list_route_name(&self) -> (r: String)
        ensures
            r@ == admin_route_name(self.name_view(), "list"@),
    {
        self.route_name("list")
    }

    /// `admin_<name>_show`.
    pub fn show_route_name(&self) -> (r: String)
        ensures
            r@ == admin_route_name(self.name_view(), "show"@),
    {
        self.route_name("show")
    }

    /// `admin_<name>_new`.
    pub fn new_route_name(&self) -> (r: String)
        ensures
            r@ == admin_route_name(self.name_view(), "new"@),
    {
        self.route_name("new")
    }

    /// `admin_<name>_create`.
    pub fn create_route_name(&self) -> (r: String)
        ensures
            r@ == admin_route_name(self.name_view(), "create"@),
    {
        self.route_name("create")
    }

    /// `admin_<name>_edit`.
    pub fn edit_route_name(&self) -> (r: String)
        ensures
            r@ == admin_route_name(self.name_view(), "edit"@),
    {
        self.route_name("edit")
    }

    /// `admin_<name>_update`.
    pub fn update_route_name(&self) -> (r: String)
        ensures
            r@ == admin_route_name(self.name_view(), "update"@),
    {
        self.route_name("update")
    }

    /// `admin_<name>_delete`.
    pub fn delete_route_name(&self) -> (r: String)
        ensures
            r@ == admin_route_name(self.name_view(), "delete"@),
    {
        self.route_name("delete")
    }

    /// List path: the normalized prefix.
    pub fn list_path(&self) -> (r: String)
        ensures
            r@ == self.list_path_view(),
    {
        normalize_prefix(self.path_prefix.as_str())
    }

    /// New/create path `<list>/new`.
    pub fn new_path(&self) -> (r: String)
        ensures
            r@ == join_prefix_text(self.list_path_view(), "new"@),
    {
        let l = self.list_path();
        join_prefix(l.as_str(), "new")
    }

    /// Show path pattern `<list>/{id}`.
    pub fn show_path(&self) -> (r: String)
        ensures
            r@ == join_prefix_text(self.list_path_view(), "{id}"@),
    {
        let l = self.list_path();
        join_id_pattern(l.as_str())
    }

    /// Edit/update path pattern `<list>/{id}/edit`.
    pub fn edit_path(&self) -> (r: String)
        ensures
            r@ == join_prefix_text(join_prefix_text(self.list_path_view(), "{id}"@), "edit"@),
    {
        let l = self.list_path();
        let p = join_id_pattern(l.as_str());
        join_prefix(p.as_str(), "edit")
    }

    /// Delete path pattern `<list>/{id}/delete`.
    pub fn delete_path(&self) -> (r: String)
        ensures
            r@ == join_prefix_text(join_prefix_text(self.list_path_view(), "{id}"@), "delete"@),
    {
        let l = self.list_path();
        let p = join_id_pattern(l.as_str());
        join_prefix(p.as_str(), "delete")
    }

    /// Edit URL for `id`.
    pub fn edit_path_for(&self, id: &str) -> (r: String)
        ensures
            r@ == join_prefix_text(join_prefix_text(self.list_path_view(), id@), "edit"@),
    {
        let l = self.list_path();
        let p = join_id(l.as_str(), id);
        join_prefix(p.as_str(), "edit")
    }

    /// Delete URL for `id`.
    pub fn delete_path_for(&self, id: &str) -> (r: String)
        ensures
            r@ == join_prefix_text(join_prefix_text(self.list_path_view(), id@), "delete"@),
    {
        let l = self.list_path();
        let p = join_id(l.as_str(), id);
        join_prefix(p.as_str(), "delete")
    }

    /// Show URL for `id`.
    pub fn show_path_for(&self, id: &str) -> (r: String)
        ensures
            r@ == join_prefix_text(self.list_path_view(), id@),
    {
        let l = self.list_path();
        join_id(l.as_str(), id)
    }
}

} // verus!
