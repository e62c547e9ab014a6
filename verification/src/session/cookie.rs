//! Session-id cookie: reading it from a `Cookie` header, writing `Set-Cookie`,
//! and the open / commit lifecycle against a [`SessionStore`].

use std::sync::Arc;

use vstd::prelude::*;

use crate::admin::resource::occurs;
use crate::session::error::SessionError;
use crate::session::map::StringMap;
use crate::session::session::Session;
use crate::session::store::SessionStore;
use crate::text::{
    chars_of, decimal, digit_char, find_char, first_index, lead_ws, push_chars, push_str, split_chars,
    split_on, string_of, trail_ws, trim, trim_chars, u64_to_decimal,
};

verus! {

/// Default session cookie name.
pub const DEFAULT_SESSION_COOKIE: &'static str = "SERENADE_SESSION";

/// `SameSite` attribute for the session cookie.
#[derive(Clone, Copy, Debug, PartialEq, Eq)]
pub enum SameSite {
    /// `SameSite=Lax`.
    Lax,
    /// `SameSite=Strict`.
    Strict,
    /// `SameSite=None` (browsers require `Secure`).
    NoRestriction,
}

/// Attribute value text of a `SameSite` setting.
pub open spec fn same_site_text(s: SameSite) -> Seq<char> {
    match s {
        SameSite::Lax => "Lax"@,
        SameSite::Strict => "Strict"@,
        SameSite::NoRestriction => "None"@,
    }
}

impl SameSite {
    /// Attribute value text (`Lax`, `Strict`, `None`).
    pub fn as_str(self) -> (r: &'static str)
        ensures
            r@ == same_site_text(self),
    {
        match self {
            SameSite::Lax => "Lax",
            SameSite::Strict => "Strict",
            SameSite::NoRestriction => "None",
        }
    }
}

/// Options for the session id cookie written on commit.
#[derive(Clone, Debug, PartialEq, Eq)]
pub struct CookieSessionOptions {
    name: String,
    path: String,
    http_only: bool,
    secure: bool,
    same_site: SameSite,
    max_age_secs: Option<u64>,
}

/// Plain values of cookie options.
pub struct CookieOptionsView {
    pub name: Seq<char>,
    pub path: Seq<char>,
    pub http_only: bool,
    pub secure: bool,
    pub same_site: SameSite,
    pub max_age_secs: Option<u64>,
}

/// Default cookie options: name [`DEFAULT_SESSION_COOKIE`], path `/`,
/// `HttpOnly`, not `Secure`, `SameSite=Lax`, no `Max-Age`.
pub open spec fn default_options() -> CookieOptionsView {
    CookieOptionsView {
        name: DEFAULT_SESSION_COOKIE@,
        path: "/"@,
        http_only: true,
        secure: false,
        same_site: SameSite::Lax,
        max_age_secs: None,
    }
}

impl CookieSessionOptions {
    pub closed spec fn view_opts(&self) -> CookieOptionsView {
        CookieOptionsView {
            name: self.name@,
            path: self.path@,
            http_only: self.http_only,
            secure: self.secure,
            same_site: self.same_site,
            max_age_secs: self.max_age_secs,
        }
    }

    /// Defaults: name [`DEFAULT_SESSION_COOKIE`], path `/`, `HttpOnly`, not
    /// `Secure`, `SameSite=Lax`, no `Max-Age`.
    pub fn new() -> (o: CookieSessionOptions)
        ensures
            o.view_opts() == default_options(),
    {
        CookieSessionOptions {
            name: DEFAULT_SESSION_COOKIE.to_owned(),
            path: "/".to_owned(),
            http_only: true,
            secure: false,
            same_site: SameSite::Lax,
            max_age_secs: None,
        }
    }

    /// Sets the cookie name.
    pub fn with_name(self, name: &str) -> (o: CookieSessionOptions)
        ensures
            o.view_opts() == (CookieOptionsView { name: name@, ..self.view_opts() }),
    {
        let mut o = self;
        o.name = name.to_owned();
        o
    }

    /// Sets the cookie path.
    pub fn with_path(self, path: &str) -> (o: CookieSessionOptions)
        ensures
            o.view_opts() == (CookieOptionsView { path: path@, ..self.view_opts() }),
    {
        let mut o = self;
        o.path = path.to_owned();
        o
    }

    /// Sets the `HttpOnly` flag.
    pub fn with_http_only(self, http_only: bool) -> (o: CookieSessionOptions)
        ensures
            o.view_opts() == (CookieOptionsView { http_only, ..self.view_opts() }),
    {
        let mut o = self;
        o.http_only = http_only;
        o
    }

    /// Sets the `Secure` flag.
    pub fn with_secure(self, secure: bool) -> (o: CookieSessionOptions)
        ensures
            o.view_opts() == (CookieOptionsView { secure, ..self.view_opts() }),
    {
        let mut o = self;
        o.secure = secure;
        o
    }

    /// Sets `SameSite`.
    pub fn with_same_site(self, same_site: SameSite) -> (o: CookieSessionOptions)
        ensures
            o.view_opts() == (CookieOptionsView { same_site, ..self.view_opts() }),
    {
        let mut o = self;
        o.same_site = same_site;
        o
    }

    /// Sets `Max-Age` in seconds (`None`: a browser-session cookie).
    pub fn with_max_age_secs(self, max_age_secs: Option<u64>) -> (o: CookieSessionOptions)
        ensures
            o.view_opts() == (CookieOptionsView { max_age_secs, ..self.view_opts() }),
    {
        let mut o = self;
        o.max_age_secs = max_age_secs;
        o
    }

    /// Cookie name.
    pub fn name(&self) -> (r: &str)
        ensures
            r@ == self.view_opts().name,
    {
        self.name.as_str()
    }
}

/// Attributes after `name=id` in the `Set-Cookie` value.
pub open spec fn set_cookie_attributes(o: CookieOptionsView, clear: bool) -> Seq<char> {
    "; Path="@ + o.path + (if clear {
        "; Max-Age=0"@
    } else {
        match o.max_age_secs {
            Some(m) => "; Max-Age="@ + decimal(m as nat),
            None => Seq::<char>::empty(),
        }
    }) + (if o.http_only {
        "; HttpOnly"@
    } else {
        Seq::<char>::empty()
    }) + (if o.secure {
        "; Secure"@
    } else {
        Seq::<char>::empty()
    }) + "; SameSite="@ + same_site_text(o.same_site)
}

/// `Set-Cookie` value for session `id`; `clear` expires the cookie.
pub open spec fn set_cookie_text(o: CookieOptionsView, id: Seq<char>, clear: bool) -> Seq<char> {
    o.name + "="@ + id + set_cookie_attributes(o, clear)
}

/// Every `;` of `s` opens an attribute other than `Secure`: it is followed,
/// within `s`, by three characters that are not ` Se`.
spec fn semis_open_other(s: Seq<char>) -> bool {
    forall|i: int|
        0 <= i < s.len() && #[trigger] s[i] == ';' ==> i + 3 < s.len() && !(s[i + 1] == ' ' && s[i
            + 2] == 'S' && s[i + 3] == 'e')
}

proof fn lemma_semis_concat(a: Seq<char>, b: Seq<char>)
    requires
        semis_open_other(a),
        semis_open_other(b),
    ensures
        semis_open_other(a + b),
{
    let s = a + b;
    assert forall|i: int| 0 <= i < s.len() && #[trigger] s[i] == ';' implies i + 3 < s.len() && !(
    s[i + 1] == ' ' && s[i + 2] == 'S' && s[i + 3] == 'e') by {
        if i < a.len() {
            assert(a[i] == ';');
            assert(s[i + 1] == a[i + 1] && s[i + 2] == a[i + 2] && s[i + 3] == a[i + 3]);
        } else {
            let k = i - a.len();
            assert(b[k] == ';');
            assert(s[i + 1] == b[k + 1] && s[i + 2] == b[k + 2] && s[i + 3] == b[k + 3]);
        }
    }
}

proof fn lemma_semis_free(s: Seq<char>)
    requires
        !s.contains(';'),
    ensures
        semis_open_other(s),
{
    assert forall|i: int| 0 <= i < s.len() && #[trigger] s[i] == ';' implies false by {
        assert(s.contains(s[i]));
    }
}

/// A literal attribute that starts with `; ` and then not `Se`, with no
/// other `;`.
proof fn lemma_semis_attribute(s: Seq<char>)
    requires
        s.len() >= 4,
        s[0] == ';',
        !(s[1] == ' ' && s[2] == 'S' && s[3] == 'e'),
        !s.drop_first().contains(';'),
    ensures
        semis_open_other(s),
{
    assert forall|i: int| 0 <= i < s.len() && #[trigger] s[i] == ';' implies i + 3 < s.len() && !(
    s[i + 1] == ' ' && s[i + 2] == 'S' && s[i + 3] == 'e') by {
        if i > 0 {
            assert(s.drop_first()[i - 1] == ';');
            assert(s.drop_first().contains(';'));
        }
    }
}

proof fn lemma_decimal_digits(n: nat)
    ensures
        !decimal(n).contains(';'),
    decreases n,
{
    if n < 10 {
        assert(decimal(n)[0] != ';');
        assert(!decimal(n).contains(';')) by {
            if decimal(n).contains(';') {
                let j = choose|j: int| 0 <= j < decimal(n).len() && decimal(n)[j] == ';';
                assert(j == 0);
            }
        }
    } else {
        lemma_decimal_digits(n / 10);
        let d = decimal(n / 10);
        let last = seq![digit_char((n % 10) as nat)];
        assert(decimal(n) == d + last);
        assert(!decimal(n).contains(';')) by {
            if decimal(n).contains(';') {
                let j = choose|j: int| 0 <= j < decimal(n).len() && decimal(n)[j] == ';';
                if j < d.len() {
                    assert(d[j] == ';');
                    assert(d.contains(';'));
                } else {
                    assert(last[j - d.len()] == ';');
                }
            }
        }
    }
}

/// The attribute literals of a `Set-Cookie` value open attributes other
/// than `Secure`.
proof fn lemma_semis_literals()
    ensures
        semis_open_other("="@),
        semis_open_other("; Path="@),
        semis_open_other("; Max-Age=0"@),
        semis_open_other("; Max-Age="@),
        semis_open_other("; HttpOnly"@),
        semis_open_other("; SameSite="@),
        semis_open_other("Lax"@),
        semis_open_other("Strict"@),
        semis_open_other("None"@),
{
    reveal_strlit("=");
    reveal_strlit("; Path=");
    reveal_strlit("; Max-Age=0");
    reveal_strlit("; Max-Age=");
    reveal_strlit("; HttpOnly");
    reveal_strlit("; SameSite=");
    reveal_strlit("Lax");
    reveal_strlit("Strict");
    reveal_strlit("None");
    assert("="@ =~= seq!['=']);
    lemma_semis_free(seq!['=']);
    assert("Lax"@ =~= seq!['L', 'a', 'x']);
    lemma_semis_free(seq!['L', 'a', 'x']);
    assert("Strict"@ =~= seq!['S', 't', 'r', 'i', 'c', 't']);
    lemma_semis_free(seq!['S', 't', 'r', 'i', 'c', 't']);
    assert("None"@ =~= seq!['N', 'o', 'n', 'e']);
    lemma_semis_free(seq!['N', 'o', 'n', 'e']);
    assert("; Path="@.drop_first() =~= seq![' ', 'P', 'a', 't', 'h', '=']);
    lemma_semis_attribute("; Path="@);
    assert("; Max-Age=0"@.drop_first() =~= seq![' ', 'M', 'a', 'x', '-', 'A', 'g', 'e', '=', '0']);
    lemma_semis_attribute("; Max-Age=0"@);
    assert("; Max-Age="@.drop_first() =~= seq![' ', 'M', 'a', 'x', '-', 'A', 'g', 'e', '=']);
    lemma_semis_attribute("; Max-Age="@);
    assert("; HttpOnly"@.drop_first() =~= seq![' ', 'H', 't', 't', 'p', 'O', 'n', 'l', 'y']);
    lemma_semis_attribute("; HttpOnly"@);
    assert("; SameSite="@.drop_first() =~= seq![' ', 'S', 'a', 'm', 'e', 'S', 'i', 't', 'e', '=']);
    lemma_semis_attribute("; SameSite="@);
}

/// The text before the `Secure` slot of a `Set-Cookie` value.
spec fn cookie_head(o: CookieOptionsView, id: Seq<char>, clear: bool) -> Seq<char> {
    o.name + "="@ + id + "; Path="@ + o.path + (if clear {
        "; Max-Age=0"@
    } else {
        match o.max_age_secs {
            Some(m) => "; Max-Age="@ + decimal(m as nat),
            None => Seq::<char>::empty(),
        }
    }) + (if o.http_only {
        "; HttpOnly"@
    } else {
        Seq::<char>::empty()
    })
}

proof fn lemma_head_semis(o: CookieOptionsView, id: Seq<char>, clear: bool)
    requires
        !o.name.contains(';'),
        !id.contains(';'),
        !o.path.contains(';'),
    ensures
        semis_open_other(cookie_head(o, id, clear)),
        semis_open_other("; SameSite="@ + same_site_text(o.same_site)),
{
    lemma_semis_literals();
    let e = Seq::<char>::empty();
    let age = if clear {
        "; Max-Age=0"@
    } else {
        match o.max_age_secs {
            Some(m) => "; Max-Age="@ + decimal(m as nat),
            None => e,
        }
    };
    let http = if o.http_only {
        "; HttpOnly"@
    } else {
        e
    };
    lemma_semis_free(o.name);
    lemma_semis_free(id);
    lemma_semis_free(o.path);
    lemma_semis_free(e);
    if !clear {
        if let Some(m) = o.max_age_secs {
            lemma_decimal_digits(m as nat);
            lemma_semis_free(decimal(m as nat));
            lemma_semis_concat("; Max-Age="@, decimal(m as nat));
        }
    }
    lemma_semis_concat(o.name, "="@);
    lemma_semis_concat(o.name + "="@, id);
    lemma_semis_concat(o.name + "="@ + id, "; Path="@);
    lemma_semis_concat(o.name + "="@ + id + "; Path="@, o.path);
    lemma_semis_concat(o.name + "="@ + id + "; Path="@ + o.path, age);
    lemma_semis_concat(o.name + "="@ + id + "; Path="@ + o.path + age, http);
    assert(cookie_head(o, id, clear) == o.name + "="@ + id + "; Path="@ + o.path + age + http);
    lemma_semis_concat("; SameSite="@, same_site_text(o.same_site));
}

/// The `Set-Cookie` value carries the `Secure` attribute exactly when the
/// options ask for it (for a cookie name, session id and path without `;`,
/// as cookie syntax has them).
pub proof fn lemma_set_cookie_secure_iff(o: CookieOptionsView, id: Seq<char>, clear: bool)
    requires
        !o.name.contains(';'),
        !id.contains(';'),
        !o.path.contains(';'),
    ensures
        occurs("; Secure"@, set_cookie_text(o, id, clear)) <==> o.secure,
{
    reveal_strlit("; Secure");
    let head = cookie_head(o, id, clear);
    let tail = "; SameSite="@ + same_site_text(o.same_site);
    let text = set_cookie_text(o, id, clear);
    lemma_head_semis(o, id, clear);
    if o.secure {
        assert(text =~= head + "; Secure"@ + tail);
        let p = head.len() as int;
        assert(text.subrange(p, p + 8) =~= "; Secure"@);
    } else {
        assert(text =~= head + tail);
        lemma_semis_concat(head, tail);
        if occurs("; Secure"@, text) {
            let i = choose|i: int|
                0 <= i && i + "; Secure"@.len() <= text.len() && #[trigger] text.subrange(
                    i,
                    i + "; Secure"@.len(),
                ) == "; Secure"@;
            let w = text.subrange(i, i + 8);
            assert(w[0] == ';' && w[1] == ' ' && w[2] == 'S' && w[3] == 'e');
            assert(text[i] == w[0]);
            assert(text[i + 1] == w[1] && text[i + 2] == w[2] && text[i + 3] == w[3]);
        }
    }
}

fn max_age_text(options: &CookieSessionOptions, clear: bool) -> (out: String)
    ensures
        out@ == (if clear {
            "; Max-Age=0"@
        } else {
            match options.view_opts().max_age_secs {
                Some(m) => "; Max-Age="@ + decimal(m as nat),
                None => Seq::<char>::empty(),
            }
        }),
{
    let mut out = String::new();
    if clear {
        push_str(&mut out, "; Max-Age=0");
    } else {
        match options.max_age_secs {
            Some(max_age) => {
                push_str(&mut out, "; Max-Age=");
                let digits = u64_to_decimal(max_age);
                push_chars(&mut out, &digits);
            },
            None => {},
        }
    }
    out
}

fn format_attributes(options: &CookieSessionOptions, clear: bool) -> (out: String)
    ensures
        out@ == set_cookie_attributes(options.view_opts(), clear),
{
    let mut out = String::new();
    push_str(&mut out, "; Path=");
    push_str(&mut out, options.path.as_str());
    let age = max_age_text(options, clear);
    push_str(&mut out, age.as_str());
    let ghost b = out@;
    if options.http_only {
        push_str(&mut out, "; HttpOnly");
    }
    let ghost c = out@;
    if options.secure {
        push_str(&mut out, "; Secure");
    }
    let ghost d = out@;
    push_str(&mut out, "; SameSite=");
    push_str(&mut out, options.same_site.as_str());
    assert(out@ =~= set_cookie_attributes(options.view_opts(), clear));
    out
}

fn format_set_cookie(options: &CookieSessionOptions, id: &str, clear: bool) -> (out: String)
    ensures
        out@ == set_cookie_text(options.view_opts(), id@, clear),
{
    let mut out = String::new();
    push_str(&mut out, options.name.as_str());
    push_str(&mut out, "=");
    push_str(&mut out, id);
    let attrs = format_attributes(options, clear);
    push_str(&mut out, attrs.as_str());
    assert(out@ =~= set_cookie_text(options.view_opts(), id@, clear));
    out
}

/// Value carried by one `key=value` part when its key is `name`.
pub open spec fn part_value(raw: Seq<char>, name: Seq<char>) -> Option<Seq<char>> {
    let part = trim(raw);
    match first_index(part, '=') {
        None => None,
        Some(i) => if trim(part.take(i)) == name {
            Some(trim(part.skip(i + 1)))
        } else {
            None
        },
    }
}

/// Value of cookie `name` among `;`-separated `key=value` parts (first match).
pub open spec fn cookie_value_in(parts: Seq<Seq<char>>, name: Seq<char>) -> Option<Seq<char>>
    decreases parts.len(),
{
    if parts.len() == 0 {
        None
    } else {
        match part_value(parts[0], name) {
            Some(v) => Some(v),
            None => cookie_value_in(parts.skip(1), name),
        }
    }
}

/// Value of cookie `name` in a raw `Cookie` header (first match, trimmed).
pub open spec fn cookie_value(header: Seq<char>, name: Seq<char>) -> Option<Seq<char>> {
    cookie_value_in(split_on(header, ';'), name)
}

fn part_value_of(raw: &[char], name: &[char]) -> (r: Option<Vec<char>>)
    ensures
        match r {
            Some(v) => part_value(raw@, name@) == Some(v@),
            None => part_value(raw@, name@) is None,
        },
{
    let part = trim_chars(raw);
    match find_char(&part, '=') {
        Some(k) => {
            let key = trim_chars(&crate::text::slice_chars(&part, 0, k));
            assert(part@.subrange(0, k as int) =~= part@.take(k as int));
            if crate::text::chars_eq(&key, name) {
                let value = trim_chars(&crate::text::slice_chars(&part, k + 1, part.len()));
                assert(part@.subrange(k + 1, part@.len() as int) =~= part@.skip(k + 1));
                Some(value)
            } else {
                None
            }
        },
        None => None,
    }
}

/// Reads `name` from a raw `Cookie` header (`a=1; b=2`).
pub fn parse_cookie_value(cookie_header: &str, name: &str) -> (r: Option<String>)
    ensures
        match r {
            Some(v) => cookie_value(cookie_header@, name@) == Some(v@),
            None => cookie_value(cookie_header@, name@) is None,
        },
{
    let h = chars_of(cookie_header);
    let n = chars_of(name);
    let parts = split_chars(&h, ';');
    let ghost pv = parts@.map_values(|v: Vec<char>| v@);
    let mut i: usize = 0;
    assert(pv.skip(0) =~= pv);
    while i < parts.len()
        invariant
            i <= parts.len(),
            pv == parts@.map_values(|v: Vec<char>| v@),
            pv == split_on(h@, ';'),
            h@ == cookie_header@,
            n@ == name@,
            cookie_value_in(pv, name@) == cookie_value_in(pv.skip(i as int), name@),
        decreases parts.len() - i,
    {
        let ghost rest = pv.skip(i as int);
        assert(rest[0] == parts@[i as int]@);
        assert(rest.skip(1) =~= pv.skip(i as int + 1));
        if let Some(value) = part_value_of(&parts[i], &n) {
            return Some(string_of(&value));
        }
        i = i + 1;
    }
    None
}

/// A cookie name or id that survives the `Cookie` header grammar unchanged:
/// no `;`, no surrounding whitespace.
pub open spec fn cookie_token(s: Seq<char>) -> bool {
    &&& forall|i: int| 0 <= i < s.len() ==> #[trigger] s[i] != ';'
    &&& s.len() > 0 ==> !crate::text::is_ws(s[0]) && !crate::text::is_ws(s.last())
}

proof fn lemma_split_on_plain(a: Seq<char>, sep: char)
    requires
        forall|i: int| 0 <= i < a.len() ==> #[trigger] a[i] != sep,
    ensures
        split_on(a, sep) == seq![a],
    decreases a.len(),
{
    if a.len() > 0 {
        let d = a.drop_last();
        assert forall|i: int| 0 <= i < d.len() implies #[trigger] d[i] != sep by {
            assert(d[i] == a[i]);
        }
        lemma_split_on_plain(d, sep);
        assert(d.push(a.last()) =~= a);
        assert(seq![d].update(0, d.push(a.last())) =~= seq![a]);
    } else {
        assert(a =~= Seq::<char>::empty());
    }
}

proof fn lemma_split_on_prefix(x: Seq<char>, y: Seq<char>, sep: char)
    requires
        split_on(x, sep).len() >= 2,
    ensures
        split_on(x + y, sep).len() >= split_on(x, sep).len(),
        split_on(x + y, sep)[0] == split_on(x, sep)[0],
    decreases y.len(),
{
    if y.len() == 0 {
        assert(x + y =~= x);
    } else {
        lemma_split_on_prefix(x, y.drop_last(), sep);
        assert((x + y).drop_last() =~= x + y.drop_last());
    }
}

proof fn lemma_first_part(part: Seq<char>, rest: Seq<char>)
    requires
        forall|i: int| 0 <= i < part.len() ==> #[trigger] part[i] != ';',
        rest.len() > 0,
        rest[0] == ';',
    ensures
        split_on(part + rest, ';').len() >= 2,
        split_on(part + rest, ';')[0] == part,
{
    lemma_split_on_plain(part, ';');
    assert(part.push(';').drop_last() =~= part);
    assert(split_on(part.push(';'), ';') == seq![part].push(seq![]));
    lemma_split_on_prefix(part.push(';'), rest.skip(1), ';');
    assert(part.push(';') + rest.skip(1) =~= part + rest);
}

proof fn lemma_trim_token(s: Seq<char>)
    requires
        s.len() > 0 ==> !crate::text::is_ws(s[0]) && !crate::text::is_ws(s.last()),
    ensures
        trim(s) == s,
{
    assert(lead_ws(s) == 0);
    assert(s.skip(0) =~= s);
    assert(trail_ws(s) == 0);
    assert(s.take(s.len() as int) =~= s);
}

proof fn lemma_part_value(name: Seq<char>, id: Seq<char>)
    requires
        cookie_token(name),
        forall|i: int| 0 <= i < name.len() ==> #[trigger] name[i] != '=',
        cookie_token(id),
    ensures
        part_value(name + seq!['='] + id, name) == Some(id),
{
    let part = name + seq!['='] + id;
    assert(part[0] == if name.len() > 0 { name[0] } else { '=' });
    assert(part.last() == if id.len() > 0 { id.last() } else { '=' });
    lemma_trim_token(part);
    let k = name.len() as int;
    assert(part[k] == '=');
    let w = choose|w: int| 0 <= w < part.len() && part[w] == '=' && forall|j: int|
        0 <= j < w ==> part[j] != '=';
    assert(w == k) by {
        if w < k {
            assert(part[w] == name[w]);
        }
        if w > k {
            assert(part[k] == '=');
        }
    }
    assert(part.take(k) =~= name);
    assert(part.skip(k + 1) =~= id);
    lemma_trim_token(name);
    lemma_trim_token(id);
}

/// The `Set-Cookie` value written on commit names the session when sent
/// back as a `Cookie` header.
pub proof fn lemma_set_cookie_roundtrip(o: CookieOptionsView, id: Seq<char>, clear: bool)
    requires
        cookie_token(o.name),
        forall|i: int| 0 <= i < o.name.len() ==> #[trigger] o.name[i] != '=',
        cookie_token(id),
    ensures
        cookie_value(set_cookie_text(o, id, clear), o.name) == Some(id),
{
    reveal_strlit("=");
    reveal_strlit("; Path=");
    let part = o.name + seq!['='] + id;
    let rest = set_cookie_attributes(o, clear);
    assert("="@ =~= seq!['=']);
    assert(set_cookie_text(o, id, clear) =~= part + rest);
    assert(rest[0] == ';');
    assert forall|i: int| 0 <= i < part.len() implies #[trigger] part[i] != ';' by {
        if i < o.name.len() {
            assert(part[i] == o.name[i]);
        } else if i > o.name.len() {
            assert(part[i] == id[i - o.name.len() - 1]);
        }
    }
    lemma_first_part(part, rest);
    lemma_part_value(o.name, id);
}

/// Session id shape: 64 lower-case hexadecimal digits.
pub open spec fn is_session_id(s: Seq<char>) -> bool {
    &&& s.len() == 64
    &&& forall|i: int| 0 <= i < s.len() ==> is_hex_digit(#[trigger] s[i])
}

pub open spec fn is_hex_digit(c: char) -> bool {
    ('0' <= c && c <= '9') || ('a' <= c && c <= 'f')
}

/// Lower-case hexadecimal digit for `d` (`0..16`).
pub open spec fn hex_char(d: nat) -> char {
    if d < 10 {
        ((d + 48) as u32) as char
    } else {
        ((d + 87) as u32) as char
    }
}

/// Lower-case hexadecimal text of bytes, two digits per byte.
pub open spec fn hex_of(bytes: Seq<u8>) -> Seq<char>
    decreases bytes.len(),
{
    if bytes.len() == 0 {
        seq![]
    } else {
        hex_of(bytes.drop_last()) + seq![
            hex_char((bytes.last() / 16) as nat),
            hex_char((bytes.last() % 16) as nat),
        ]
    }
}

fn hex_digit(d: u8) -> (c: char)
    requires
        d < 16,
    ensures
        c == hex_char(d as nat),
        is_hex_digit(c),
{
    if d < 10 {
        (d + 48) as char
    } else {
        (d + 87) as char
    }
}

/// Lower-case hexadecimal text of `bytes`.
pub fn hex_encode(bytes: &[u8]) -> (out: String)
    ensures
        out@ == hex_of(bytes@),
        out@.len() == 2 * bytes@.len(),
        forall|i: int| 0 <= i < out@.len() ==> is_hex_digit(#[trigger] out@[i]),
{
    let mut out: Vec<char> = Vec::new();
    let mut i: usize = 0;
    while i < bytes.len()
        invariant
            i <= bytes.len(),
            out@ == hex_of(bytes@.take(i as int)),
            out@.len() == 2 * i,
            forall|j: int| 0 <= j < out@.len() ==> is_hex_digit(#[trigger] out@[j]),
        decreases bytes.len() - i,
    {
        let b = bytes[i];
        out.push(hex_digit(b / 16));
        out.push(hex_digit(b % 16));
        assert(bytes@.take(i as int + 1).drop_last() =~= bytes@.take(i as int));
        assert(bytes@.take(i as int + 1).last() == b);
        i = i + 1;
    }
    assert(bytes@.take(bytes.len() as int) =~= bytes@);
    string_of(&out)
}

/// Fills `dest` with random bytes from the OS (`getrandom::fill`); `false`
/// when the generator fails.
#[verifier::external_body]
pub(crate) fn fill_random(dest: &mut [u8]) -> (ok: bool)
    ensures
        final(dest)@.len() == old(dest)@.len(),
{
    getrandom::fill(dest).is_ok()
}

/// New opaque session id: 32 random bytes, hex-encoded.
pub fn generate_session_id() -> (r: Result<String, SessionError>)
    ensures
        match r {
            Ok(id) => is_session_id(id@),
            Err(e) => e == SessionError::Generation,
        },
{
    let mut bytes: Vec<u8> = vec![0u8; 32];
    if !fill_random(bytes.as_mut_slice()) {
        return Err(SessionError::Generation);
    }
    Ok(hex_encode(bytes.as_slice()))
}

impl Default for CookieSessionOptions {
    fn default() -> (o: CookieSessionOptions)
        ensures
            o.view_opts() == default_options(),
    {
        CookieSessionOptions::new()
    }
}

/// The session named `id` given what the store answered when asked for it:
/// the store's error, the stored attributes as an unchanged existing
/// session, or `None` when the store does not know `id`.
pub fn resume_session(id: &str, loaded: Result<Option<StringMap>, SessionError>) -> (r: Result<
    Option<Session>,
    SessionError,
>)
    ensures
        match loaded {
            Err(e) => r == Err::<Option<Session>, SessionError>(e),
            Ok(None) => r == Ok::<Option<Session>, SessionError>(None),
            Ok(Some(a)) => r matches Ok(Some(s)) && s@ == a@ && s.id_view() == id@ && !s.new_view()
                && !s.modified_view() && !s.invalidated_view(),
        },
{
    match loaded {
        Err(e) => Err(e),
        Ok(None) => Ok(None),
        Ok(Some(attributes)) => Ok(Some(Session::existing(id, attributes))),
    }
}

/// What committing a session asks of the store.
pub enum CommitPlan {
    /// Forget the invalidated session `id`.
    Delete { id: String },
    /// Nothing changed: no store call, no cookie.
    Keep,
    /// Store `attributes` under `id` (a new or modified session).
    Save { id: String, attributes: StringMap },
}

/// The store call for committing `s`: delete when invalidated, save when new
/// or modified, nothing otherwise.
pub open spec fn commit_plan_matches(s: Session, p: CommitPlan) -> bool {
    if s.invalidated_view() {
        p matches CommitPlan::Delete { id } && id@ == s.id_view()
    } else if s.new_view() || s.modified_view() {
        p matches CommitPlan::Save { id, attributes } && id@ == s.id_view() && attributes@ == s@
    } else {
        p is Keep
    }
}

/// The store call that committing `session` makes (see [`commit_plan_matches`]).
pub fn commit_plan(session: &Session) -> (p: CommitPlan)
    ensures
        commit_plan_matches(*session, p),
{
    if session.is_invalidated() {
        CommitPlan::Delete { id: session.id().to_owned() }
    } else if session.is_dirty() {
        CommitPlan::Save { id: session.id().to_owned(), attributes: session.take_for_save() }
    } else {
        CommitPlan::Keep
    }
}

/// The session id in the session cookie of `cookie_header`, if any.
pub open spec fn cookie_id_in(o: CookieOptionsView, cookie_header: Option<&str>) -> Option<Seq<char>> {
    match cookie_header {
        Some(h) => cookie_value(h@, o.name),
        None => None,
    }
}

/// What opening gives for the cookie id `id` when the store answered `a`:
/// the store's error; the stored attributes as an unchanged existing session
/// named `id`; or, when the store does not know `id`, a fresh empty session
/// with a new id (or the generator's failure).
pub open spec fn open_outcome(
    id: Seq<char>,
    a: Result<Option<StringMap>, SessionError>,
    r: Result<Session, SessionError>,
) -> bool {
    match a {
        Err(e) => r == Err::<Session, SessionError>(e),
        Ok(Some(m)) => r matches Ok(s) && s@ == m@ && s.id_view() == id && !s.new_view()
            && !s.modified_view() && !s.invalidated_view(),
        Ok(None) => match r {
            Ok(s) => s.new_view() && is_session_id(s.id_view()) && s@ == Map::<
                Seq<char>,
                Seq<char>,
            >::empty() && !s.modified_view() && !s.invalidated_view(),
            Err(e) => e == SessionError::Generation,
        },
    }
}

/// Opens and commits sessions using a store plus a session-id cookie.
pub struct CookieSession<S: SessionStore + ?Sized = dyn SessionStore> {
    store: Arc<S>,
    options: CookieSessionOptions,
}

impl<S: SessionStore + ?Sized> Clone for CookieSession<S> {
    fn clone(&self) -> Self {
        CookieSession { store: Arc::clone(&self.store), options: self.options.clone() }
    }
}

impl<S: SessionStore + ?Sized> CookieSession<S> {
    pub closed spec fn options_view(&self) -> CookieOptionsView {
        self.options.view_opts()
    }

    /// The store that `open` loads from and `commit` writes to.
    pub closed spec fn store_view(&self) -> Arc<S> {
        self.store
    }

    /// Binds `store` with default cookie options.
    pub fn new(store: Arc<S>) -> (c: CookieSession<S>)
        ensures
            c.options_view() == default_options(),
            c.store_view() == store,
    {
        CookieSession { store, options: CookieSessionOptions::new() }
    }

    /// Binds `store` with `options`.
    pub fn with_options(store: Arc<S>, options: CookieSessionOptions) -> (c: CookieSession<S>)
        ensures
            c.options_view() == options.view_opts(),
            c.store_view() == store,
    {
        CookieSession { store, options }
    }

    /// Cookie options.
    pub fn options(&self) -> (r: &CookieSessionOptions)
        ensures
            r.view_opts() == self.options_view(),
    {
        &self.options
    }

    /// The session id that `open` asks the store for: the value of the
    /// session cookie in `cookie_header`, when there is one.
    pub fn cookie_session_id(&self, cookie_header: Option<&str>) -> (r: Option<String>)
        ensures
            match r {
                Some(id) => cookie_id_in(self.options_view(), cookie_header) == Some(id@),
                None => cookie_id_in(self.options_view(), cookie_header) is None,
            },
    {
        match cookie_header {
            Some(header) => parse_cookie_value(header, self.options.name.as_str()),
            None => None,
        }
    }

    /// Loads the session named by the cookie in `cookie_header` (the id of
    /// [`CookieSession::cookie_session_id`], asked of
    /// [`CookieSession::store_view`]; the answer gives the session as
    /// [`resume_session`] states), or starts a fresh one (also when the store
    /// no longer knows the id).
    pub fn open(&self, cookie_header: Option<&str>) -> (r: Result<Session, SessionError>)
        ensures
            r matches Ok(s) ==> {
                ||| {
                    &&& cookie_header matches Some(h)
                    &&& cookie_value(h@, self.options_view().name) == Some(s.id_view())
                    &&& !s.new_view()
                }
                ||| {
                    &&& s.new_view()
                    &&& is_session_id(s.id_view())
                    &&& s@ == Map::<Seq<char>, Seq<char>>::empty()
                }
            },
            r matches Ok(s) ==> !s.modified_view() && !s.invalidated_view(),
            (match cookie_header {
                Some(h) => cookie_value(h@, self.options_view().name) is None,
                None => true,
            }) ==> (r matches Err(e) ==> e == SessionError::Generation),
            cookie_id_in(self.options_view(), cookie_header) matches Some(id) ==> exists|
                a: Result<Option<StringMap>, SessionError>,
            | #[trigger] self.store_view().loaded(id, a) && open_outcome(id, a, r),
    {
        let cookie_id = self.cookie_session_id(cookie_header);
        let ghost mut answer: Result<Option<StringMap>, SessionError> = Ok(None);
        let resumed = match &cookie_id {
            Some(id) => {
                let loaded = self.store.load(id.as_str());
                proof {
                    answer = loaded;
                }
                resume_session(id.as_str(), loaded)
            },
            None => Ok(None),
        };
        let r = match resumed {
            Err(e) => Err(e),
            Ok(Some(session)) => Ok(session),
            Ok(None) => match generate_session_id() {
                Err(e) => Err(e),
                Ok(fresh) => Ok(Session::new(fresh.as_str())),
            },
        };
        proof {
            if let Some(id) = cookie_id {
                assert(open_outcome(id@, answer, r));
                assert(self.store_view().loaded(id@, answer));
                assert(cookie_id_in(self.options_view(), cookie_header) == Some(id@));
            }
            assert(cookie_id_in(self.options_view(), cookie_header) matches Some(id) ==> (
            self.store_view().loaded(id, answer) && open_outcome(id, answer, r)));
        }
        r
    }

    /// Persists `session` by making the store call of [`commit_plan`] on
    /// [`CookieSession::store_view`] (delete, save with the session's
    /// attributes, or none); returns the `Set-Cookie` value to send, or
    /// `None` when the session was neither new, modified nor invalidated.
    /// An error is the store's.
    pub fn commit(&self, session: &Session) -> (r: Result<Option<String>, SessionError>)
        ensures
            !session.invalidated_view() && !session.new_view() && !session.modified_view()
                ==> r == Ok::<Option<String>, SessionError>(None),
            r matches Ok(Some(h)) ==> h@ == set_cookie_text(
                self.options_view(),
                session.id_view(),
                session.invalidated_view(),
            ),
            r matches Ok(None) ==> !session.invalidated_view() && !session.new_view()
                && !session.modified_view(),
            r is Err ==> session.invalidated_view() || session.new_view() || session.modified_view(),
            session.invalidated_view() ==> exists|a: Result<(), SessionError>|
                #[trigger] self.store_view().deleted(session.id_view(), a) && store_answered(
                    a,
                    r,
                    set_cookie_text(self.options_view(), session.id_view(), true),
                ),
            !session.invalidated_view() && (session.new_view() || session.modified_view())
                ==> exists|a: Result<(), SessionError>|
                #[trigger] self.store_view().saved(session.id_view(), session@, a) && store_answered(
                    a,
                    r,
                    set_cookie_text(self.options_view(), session.id_view(), false),
                ),
    {
        match commit_plan(session) {
            CommitPlan::Delete { id } => {
                let answer = self.store.delete(id.as_str());
                let r = match answer {
                    Err(e) => Err(e),
                    Ok(()) => Ok(Some(format_set_cookie(&self.options, session.id(), true))),
                };
                assert(self.store_view().deleted(session.id_view(), answer));
                assert(store_answered(
                    answer,
                    r,
                    set_cookie_text(self.options_view(), session.id_view(), true),
                ));
                r
            },
            CommitPlan::Keep => Ok(None),
            CommitPlan::Save { id, attributes } => {
                let answer = self.store.save(id.as_str(), &attributes);
                let r = match answer {
                    Err(e) => Err(e),
                    Ok(()) => Ok(Some(format_set_cookie(&self.options, session.id(), false))),
                };
                assert(self.store_view().saved(session.id_view(), session@, answer));
                assert(store_answered(
                    answer,
                    r,
                    set_cookie_text(self.options_view(), session.id_view(), false),
                ));
                r
            },
        }
    }
}

/// What committing returns when the store answered `a`: the store's error,
/// or the `Set-Cookie` value `cookie`.
pub open spec fn store_answered(
    a: Result<(), SessionError>,
    r: Result<Option<String>, SessionError>,
    cookie: Seq<char>,
) -> bool {
    match a {
        Err(e) => r == Err::<Option<String>, SessionError>(e),
        Ok(()) => r matches Ok(Some(h)) && h@ == cookie,
    }
}

} // verus!
