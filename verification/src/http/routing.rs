//! Named routes, reverse routing and request matching.
//!
//! A route path is split at `/`; a segment written `{name}` is a parameter
//! that matches any one segment of a request path.

use vstd::prelude::*;

use crate::http::attributes::AttributeValue;
use crate::http::error::HttpError;
use crate::http::request::Request;
use crate::session::map::StringMap;
use crate::http::method::Method;
use crate::text::{
    chars_of, join_with, lemma_join_with_push, lemma_split_join, lemma_split_on_nonempty,
    lemma_split_on_parts_plain, push_chars, push_str,
    slice_chars, split_chars, split_on, string_of, utf8_bytes,
};

verus! {

/// Request attribute holding the matched route's name.
pub const ROUTE_ATTRIBUTE: &'static str = "_route";

/// A named path pattern with the methods it accepts (none listed: any).
#[derive(Clone, Debug)]
pub struct Route {
    name: String,
    path: String,
    methods: Vec<Method>,
}

/// Whether `methods` accepts `m` (an empty list accepts every method).
pub open spec fn methods_allow(methods: Seq<Method>, m: Method) -> bool {
    methods.len() == 0 || methods.contains(m)
}

impl Route {
    pub closed spec fn name_view(&self) -> Seq<char> {
        self.name@
    }

    pub closed spec fn path_view(&self) -> Seq<char> {
        self.path@
    }

    pub closed spec fn methods_view(&self) -> Seq<Method> {
        self.methods@
    }

    /// Route `name` on `path` for `methods`.
    pub fn new(name: &str, path: &str, methods: Vec<Method>) -> (r: Route)
        ensures
            r.name_view() == name@,
            r.path_view() == path@,
            r.methods_view() == methods@,
    {
        Route { name: name.to_owned(), path: path.to_owned(), methods }
    }

    /// Route `name` on `path` for the one method `method`.
    pub fn with_method(name: &str, path: &str, method: Method) -> (r: Route)
        ensures
            r.name_view() == name@,
            r.path_view() == path@,
            r.methods_view() == seq![method],
    {
        let mut methods: Vec<Method> = Vec::new();
        methods.push(method);
        Route::new(name, path, methods)
    }

    pub fn name(&self) -> (r: &str)
        ensures
            r@ == self.name_view(),
    {
        self.name.as_str()
    }

    pub fn path(&self) -> (r: &str)
        ensures
            r@ == self.path_view(),
    {
        self.path.as_str()
    }

    pub fn methods(&self) -> (r: &[Method])
        ensures
            r@ == self.methods_view(),
    {
        self.methods.as_slice()
    }

    /// Whether the route accepts `method`.
    pub fn allows(&self, method: Method) -> (r: bool)
        ensures
            r == methods_allow(self.methods_view(), method),
    {
        if self.methods.len() == 0 {
            return true;
        }
        let mut i: usize = 0;
        while i < self.methods.len()
            invariant
                i <= self.methods.len(),
                forall|j: int| 0 <= j < i ==> self.methods@[j] != method,
            decreases self.methods.len() - i,
        {
            if self.methods[i] == method {
                assert(self.methods@[i as int] == method);
                return true;
            }
            i = i + 1;
        }
        false
    }
}

/// Whether some route in `rs` is named `name`.
pub open spec fn has_route(rs: Seq<Route>, name: Seq<char>) -> bool {
    exists|i: int| 0 <= i < rs.len() && rs[i].name_view() == name
}

/// The route named `name` (meaningful when [`has_route`] holds).
pub open spec fn route_named(rs: Seq<Route>, name: Seq<char>) -> Route {
    rs[choose|i: int| 0 <= i < rs.len() && rs[i].name_view() == name]
}

/// Route names are pairwise distinct.
pub open spec fn names_unique(rs: Seq<Route>) -> bool {
    forall|i: int, j: int| 0 <= i < j < rs.len() ==> rs[i].name_view() != rs[j].name_view()
}

/// Message of the error for a name registered twice.
pub open spec fn duplicate_route_text(name: Seq<char>) -> Seq<char> {
    "route `"@ + name + "` is already registered"@
}

/// Segments of a path, split at `/`.
pub open spec fn path_segments(path: Seq<char>) -> Seq<Seq<char>> {
    split_on(path, '/')
}

/// Parameter name of a `{name}` segment.
pub open spec fn param_name(seg: Seq<char>) -> Option<Seq<char>> {
    if seg.len() >= 2 && seg[0] == '{' && seg.last() == '}' {
        Some(seg.subrange(1, seg.len() - 1))
    } else {
        None
    }
}

/// Parameters handed to reverse routing, each pair taken by its view.
pub open spec fn params_view(p: Seq<(&str, &str)>) -> Seq<(Seq<char>, Seq<char>)> {
    p.map_values(|x: (&str, &str)| (x.0@, x.1@))
}

/// Two parameters share a name.
pub open spec fn duplicate_param(p: Seq<(Seq<char>, Seq<char>)>) -> bool {
    exists|i: int, j: int| 0 <= i < j < p.len() && p[i].0 == p[j].0
}

/// Value given for parameter `n`.
pub open spec fn param_value(p: Seq<(Seq<char>, Seq<char>)>, n: Seq<char>) -> Option<Seq<char>> {
    if exists|k: int| 0 <= k < p.len() && p[k].0 == n {
        Some(p[choose|k: int| 0 <= k < p.len() && p[k].0 == n].1)
    } else {
        None
    }
}

/// A parameter segment of the template has no value.
pub open spec fn missing_param(t: Seq<Seq<char>>, p: Seq<(Seq<char>, Seq<char>)>) -> bool {
    exists|i: int|
        0 <= i < t.len() && #[trigger] param_name(t[i]) is Some && param_value(
            p,
            param_name(t[i])->0,
        ) is None
}

/// Parameter `j` names no segment of the template.
pub open spec fn param_unused(t: Seq<Seq<char>>, p: Seq<(Seq<char>, Seq<char>)>, j: int) -> bool {
    forall|i: int| 0 <= i < t.len() ==> param_name(t[i]) != Some(p[j].0)
}

/// Some parameter names no segment of the template.
pub open spec fn unused_param(t: Seq<Seq<char>>, p: Seq<(Seq<char>, Seq<char>)>) -> bool {
    exists|j: int| 0 <= j < p.len() && #[trigger] param_unused(t, p, j)
}

/// Bytes left as they are in a path segment: ASCII letters, digits, `-`,
/// `.`, `_` and `~`.
pub open spec fn unreserved(b: u8) -> bool {
    (0x41 <= b <= 0x5A) || (0x61 <= b <= 0x7A) || (0x30 <= b <= 0x39) || b == 0x2D || b == 0x2E
        || b == 0x5F || b == 0x7E
}

/// Upper-case hexadecimal digit.
pub open spec fn hex_upper(d: nat) -> char {
    if d < 10 {
        ((d + 48) as u32) as char
    } else {
        ((d + 55) as u32) as char
    }
}

/// Percent-encoding of bytes: unreserved bytes as they are, others as `%XX`.
pub open spec fn pct_bytes(b: Seq<u8>) -> Seq<char>
    decreases b.len(),
{
    if b.len() == 0 {
        seq![]
    } else {
        pct_bytes(b.drop_last()) + if unreserved(b.last()) {
            seq![(b.last() as u32) as char]
        } else {
            seq!['%', hex_upper((b.last() / 16) as nat), hex_upper((b.last() % 16) as nat)]
        }
    }
}

/// Percent-encoding of the UTF-8 bytes of `s`.
pub open spec fn pct_encode(s: Seq<char>) -> Seq<char> {
    pct_bytes(vstd::utf8::encode_utf8(s))
}

/// The template's segments with every parameter replaced by its encoded value.
pub open spec fn fill_segments(t: Seq<Seq<char>>, p: Seq<(Seq<char>, Seq<char>)>) -> Seq<Seq<char>> {
    t.map_values(
        |seg: Seq<char>|
            match param_name(seg) {
                Some(n) => pct_encode(param_value(p, n)->0),
                None => seg,
            },
    )
}

pub open spec fn route_not_found_text(name: Seq<char>) -> Seq<char> {
    "route `"@ + name + "` not found"@
}

pub open spec fn duplicate_param_text(name: Seq<char>) -> Seq<char> {
    "duplicate parameter for route `"@ + name + "`"@
}

pub open spec fn missing_param_text(name: Seq<char>) -> Seq<char> {
    "missing parameter for route `"@ + name + "`"@
}

pub open spec fn unused_param_text(name: Seq<char>) -> Seq<char> {
    "unused parameter for route `"@ + name + "`"@
}

fn hex_upper_digit(d: u8) -> (c: char)
    requires
        d < 16,
    ensures
        c == hex_upper(d as nat),
{
    if d < 10 {
        (d + 48) as char
    } else {
        (d + 55) as char
    }
}

/// Percent-encodes the UTF-8 bytes of `value` for use as a path segment.
pub fn percent_encode(value: &str) -> (out: Vec<char>)
    ensures
        out@ == pct_encode(value@),
{
    let bytes = utf8_bytes(value);
    let mut out: Vec<char> = Vec::new();
    let mut i: usize = 0;
    while i < bytes.len()
        invariant
            i <= bytes.len(),
            out@ == pct_bytes(bytes@.take(i as int)),
        decreases bytes.len() - i,
    {
        let b = bytes[i];
        let ghost before = out@;
        let keep = (0x41 <= b && b <= 0x5A) || (0x61 <= b && b <= 0x7A) || (0x30 <= b && b <= 0x39)
            || b == 0x2D || b == 0x2E || b == 0x5F || b == 0x7E;
        if keep {
            out.push(b as char);
        } else {
            out.push('%');
            out.push(hex_upper_digit(b / 16));
            out.push(hex_upper_digit(b % 16));
        }
        proof {
            let t = bytes@.take(i as int + 1);
            assert(t.drop_last() =~= bytes@.take(i as int));
            assert(t.last() == b);
            if keep {
                assert(out@ =~= before + seq![(b as u32) as char]);
            } else {
                assert(out@ =~= before + seq!['%', hex_upper((b / 16) as nat), hex_upper((b % 16) as nat)]);
            }
        }
        i = i + 1;
    }
    assert(bytes@.take(bytes.len() as int) =~= bytes@);
    out
}

/// Name of a `{name}` segment.
fn segment_param(seg: &[char]) -> (r: Option<Vec<char>>)
    ensures
        match r {
            Some(n) => param_name(seg@) == Some(n@),
            None => param_name(seg@) is None,
        },
{
    let n = seg.len();
    if n >= 2 && seg[0] == '{' && seg[n - 1] == '}' {
        Some(slice_chars(seg, 1, n - 1))
    } else {
        None
    }
}

/// Index of the parameter named `name`.
fn find_param(params: &[(&str, &str)], name: &[char]) -> (r: Option<usize>)
    ensures
        match r {
            Some(k) => k < params@.len() && params_view(params@)[k as int].0 == name@,
            None => forall|k: int| 0 <= k < params@.len() ==> params_view(params@)[k].0 != name@,
        },
{
    let mut k: usize = 0;
    while k < params.len()
        invariant
            k <= params.len(),
            forall|j: int| 0 <= j < k ==> params_view(params@)[j].0 != name@,
        decreases params.len() - k,
    {
        let key = chars_of(params[k].0);
        if crate::text::chars_eq(&key, name) {
            return Some(k);
        }
        k = k + 1;
    }
    None
}

/// The parts joined with `sep` between them.
pub fn join_parts(parts: &[Vec<char>], sep: char) -> (out: String)
    ensures
        out@ == join_with(parts@.map_values(|v: Vec<char>| v@), sep),
{
    let ghost pv = parts@.map_values(|v: Vec<char>| v@);
    let mut out = String::new();
    let mut i: usize = 0;
    assert(pv.take(0) =~= Seq::<Seq<char>>::empty());
    while i < parts.len()
        invariant
            i <= parts.len(),
            pv == parts@.map_values(|v: Vec<char>| v@),
            out@ == join_with(pv.take(i as int), sep),
        decreases parts.len() - i,
    {
        if i > 0 {
            crate::text::push_char(&mut out, sep);
        }
        push_chars(&mut out, &parts[i]);
        proof {
            assert(pv.take(i as int + 1) =~= pv.take(i as int).push(pv[i as int]));
            lemma_join_with_push(pv.take(i as int), pv[i as int], sep);
            if i == 0 {
                assert(join_with(pv.take(0), sep) =~= Seq::<char>::empty());
                assert(out@ =~= pv[0]);
            } else {
                assert(out@ =~= join_with(pv.take(i as int), sep) + seq![sep] + pv[i as int]);
            }
        }
        i = i + 1;
    }
    assert(pv.take(parts.len() as int) =~= pv);
    out
}

/// Routes in registration order, one per name.
#[derive(Debug)]
pub struct RouteCollection {
    routes: Vec<Route>,
}

impl View for RouteCollection {
    type V = Seq<Route>;

    closed spec fn view(&self) -> Seq<Route> {
        self.routes@
    }
}

impl RouteCollection {
    #[verifier::type_invariant]
    pub(crate) closed spec fn wf(&self) -> bool {
        names_unique(self.routes@)
    }

    /// A well-formed collection holds each route name once.
    pub(crate) proof fn lemma_wf_names_unique(&self)
        requires
            self.wf(),
        ensures
            names_unique(self@),
    {
    }

    /// Empty collection.
    pub fn new() -> (c: RouteCollection)
        ensures
            c@ == Seq::<Route>::empty(),
    {
        RouteCollection { routes: Vec::new() }
    }

    fn position(&self, name: &str) -> (r: Option<usize>)
        ensures
            match r {
                Some(i) => i < self@.len() && self@[i as int].name_view() == name@,
                None => !has_route(self@, name@),
            },
    {
        let mut i: usize = 0;
        while i < self.routes.len()
            invariant
                i <= self.routes.len(),
                forall|j: int| 0 <= j < i ==> self.routes@[j].name_view() != name@,
            decreases self.routes.len() - i,
        {
            if crate::text::str_eq(self.routes[i].name(), name) {
                return Some(i);
            }
            i = i + 1;
        }
        None
    }

    /// Adds `route`; a name already present is refused with a 500 error
    /// `route `<name>` is already registered`, leaving the collection as it
    /// was.
    pub fn add(&mut self, route: Route) -> (r: Result<(), HttpError>)
        ensures
            match r {
                Ok(()) => !has_route(old(self)@, route.name_view()) && final(self)@ == old(
                    self,
                )@.push(route),
                Err(e) => has_route(old(self)@, route.name_view()) && final(self)@ == old(self)@
                    && e.status_view() == 500 && e.message_view() == duplicate_route_text(
                    route.name_view(),
                ),
            },
    {
        proof {
            use_type_invariant(&*self);
        }
        if self.position(route.name()).is_some() {
            let mut msg = String::new();
            push_str(&mut msg, "route `");
            push_str(&mut msg, route.name());
            push_str(&mut msg, "` is already registered");
            return Err(HttpError::with_message(500, msg));
        }
        let ghost rv = route;
        let mut routes: Vec<Route> = Vec::new();
        std::mem::swap(&mut routes, &mut self.routes);
        routes.push(route);
        proof {
            assert forall|i: int, j: int| 0 <= i < j < routes@.len() implies routes@[i].name_view()
                != routes@[j].name_view() by {
                if j == routes@.len() - 1 {
                    assert(routes@[j] == rv);
                    assert(routes@[i] == old(self)@[i]);
                }
            }
        }
        self.routes = routes;
        Ok(())
    }

    /// The route named `name`.
    pub fn get(&self, name: &str) -> (r: Option<&Route>)
        ensures
            match r {
                Some(x) => has_route(self@, name@) && *x == route_named(self@, name@),
                None => !has_route(self@, name@),
            },
    {
        proof {
            use_type_invariant(self);
        }
        match self.position(name) {
            Some(i) => {
                proof {
                    let k = choose|k: int| 0 <= k < self@.len() && self@[k].name_view() == name@;
                    assert(k == i);
                }
                Some(&self.routes[i])
            },
            None => None,
        }
    }

    /// Path of the route `name` with each `{param}` segment replaced by the
    /// percent-encoded value given for it.  Errors: 404 for an unknown route;
    /// 400 when two parameters share a name, when a segment has no value, or
    /// when a parameter names no segment (checked in that order).
    pub fn generate(&self, name: &str, params: &[(&str, &str)]) -> (r: Result<String, HttpError>)
        ensures
            !has_route(self@, name@) ==> (r matches Err(e) && e.status_view() == 404
                && e.message_view() == route_not_found_text(name@)),
            has_route(self@, name@) ==> ({
                let t = path_segments(route_named(self@, name@).path_view());
                let p = params_view(params@);
                if duplicate_param(p) {
                    r matches Err(e) && e.status_view() == 400 && e.message_view()
                        == duplicate_param_text(name@)
                } else if missing_param(t, p) {
                    r matches Err(e) && e.status_view() == 400 && e.message_view()
                        == missing_param_text(name@)
                } else if unused_param(t, p) {
                    r matches Err(e) && e.status_view() == 400 && e.message_view()
                        == unused_param_text(name@)
                } else {
                    r matches Ok(s) && s@ == join_with(fill_segments(t, p), '/')
                }
            }),
    {
        let route = match self.get(name) {
            Some(route) => route,
            None => {
                let mut msg = String::new();
                push_str(&mut msg, "route `");
                push_str(&mut msg, name);
                push_str(&mut msg, "` not found");
                return Err(HttpError::with_message(404, msg));
            },
        };
        let ghost p = params_view(params@);
        let mut i: usize = 0;
        while i < params.len()
            invariant
                i <= params.len(),
                p == params_view(params@),
                has_route(self@, name@),
                forall|a: int, b: int| 0 <= a < b < p.len() && a < i ==> p[a].0 != p[b].0,
            decreases params.len() - i,
        {
            let mut j: usize = i + 1;
            while j < params.len()
                invariant
                    i < j <= params.len(),
                    p == params_view(params@),
                    has_route(self@, name@),
                    forall|b: int| i < b < j ==> p[i as int].0 != p[b].0,
                decreases params.len() - j,
            {
                if crate::text::str_eq(params[i].0, params[j].0) {
                    assert(p[i as int].0 == p[j as int].0);
                    let mut msg = String::new();
                    push_str(&mut msg, "duplicate parameter for route `");
                    push_str(&mut msg, name);
                    push_str(&mut msg, "`");
                    return Err(HttpError::with_message(400, msg));
                }
                j = j + 1;
            }
            i = i + 1;
        }
        let path = chars_of(route.path());
        let segs = split_chars(&path, '/');
        let ghost t = path_segments(route.path_view());
        assert(segs@.map_values(|v: Vec<char>| v@) == t);
        let mut used: Vec<bool> = Vec::new();
        let mut k: usize = 0;
        while k < params.len()
            invariant
                k <= params.len(),
                used@.len() == k,
                forall|a: int| 0 <= a < k ==> !used@[a],
            decreases params.len() - k,
        {
            used.push(false);
            k = k + 1;
        }
        let mut parts: Vec<Vec<char>> = Vec::new();
        let mut s: usize = 0;
        while s < segs.len()
            invariant
                s <= segs.len(),
                has_route(self@, name@),
                t == path_segments(route_named(self@, name@).path_view()),
                t == segs@.map_values(|v: Vec<char>| v@),
                p == params_view(params@),
                !duplicate_param(p),
                used@.len() == params@.len(),
                forall|a: int|
                    0 <= a < used@.len() ==> (used@[a] <==> exists|q: int|
                        0 <= q < s && #[trigger] param_name(t[q]) == Some(p[a].0)),
                forall|q: int| 0 <= q < s ==> !(param_name(t[q]) is Some && param_value(
                    p,
                    param_name(t[q])->0,
                ) is None),
                parts@.map_values(|v: Vec<char>| v@) == fill_segments(t, p).take(s as int),
            decreases segs.len() - s,
        {
            let seg = &segs[s];
            let ghost before = parts@.map_values(|v: Vec<char>| v@);
            assert(seg@ == t[s as int]);
            match segment_param(seg) {
                None => {
                    parts.push(slice_chars(seg, 0, seg.len()));
                    proof {
                        assert(seg@.subrange(0, seg@.len() as int) =~= seg@);
                        assert(parts@.map_values(|v: Vec<char>| v@) =~= before.push(t[s as int]));
                        assert(fill_segments(t, p).take(s as int + 1) =~= fill_segments(t, p).take(
                            s as int,
                        ).push(t[s as int]));
                        assert forall|a: int|
                            0 <= a < used@.len() implies (used@[a] <==> exists|q: int|
                                0 <= q < s + 1 && #[trigger] param_name(t[q]) == Some(p[a].0)) by {
                            if exists|q: int| 0 <= q < s + 1 && #[trigger] param_name(t[q]) == Some(p[a].0) {
                                let q = choose|q: int| 0 <= q < s + 1 && #[trigger] param_name(t[q]) == Some(p[a].0);
                                assert(q != s);
                            }
                        }
                    }
                },
                Some(pname) => {
                    match find_param(params, &pname) {
                        None => {
                            proof {
                                assert(!(exists|k: int| 0 <= k < p.len() && p[k].0 == pname@));
                                assert(param_name(t[s as int]) is Some && param_value(
                                    p,
                                    param_name(t[s as int])->0,
                                ) is None);
                            }
                            let mut msg = String::new();
                            push_str(&mut msg, "missing parameter for route `");
                            push_str(&mut msg, name);
                            push_str(&mut msg, "`");
                            return Err(HttpError::with_message(400, msg));
                        },
                        Some(kk) => {
                            let ghost used_before = used@;
                            used.set(kk, true);
                            let enc = percent_encode(params[kk].1);
                            parts.push(enc);
                            proof {
                                let ck = choose|c: int| 0 <= c < p.len() && p[c].0 == pname@;
                                assert(ck == kk as int) by {
                                    if ck != kk as int {
                                        if ck < kk as int {
                                            assert(p[ck].0 == p[kk as int].0);
                                        } else {
                                            assert(p[kk as int].0 == p[ck].0);
                                        }
                                    }
                                }
                                assert(param_value(p, pname@) == Some(p[kk as int].1));
                                assert(parts@.map_values(|v: Vec<char>| v@) =~= before.push(
                                    fill_segments(t, p)[s as int],
                                ));
                                assert(fill_segments(t, p).take(s as int + 1) =~= fill_segments(
                                    t,
                                    p,
                                ).take(s as int).push(fill_segments(t, p)[s as int]));
                                assert forall|a: int|
                                    0 <= a < used@.len() implies (used@[a] <==> exists|q: int|
                                        0 <= q < s + 1 && #[trigger] param_name(t[q]) == Some(
                                            p[a].0,
                                        )) by {
                                    if a == kk as int {
                                        assert(param_name(t[s as int]) == Some(p[a].0));
                                    } else {
                                        assert(p[a].0 != p[kk as int].0) by {
                                            if a < kk as int {
                                            } else {
                                            }
                                        }
                                        if exists|q: int| 0 <= q < s + 1 && #[trigger] param_name(t[q]) == Some(p[a].0) {
                                            let q = choose|q: int| 0 <= q < s + 1 && #[trigger] param_name(t[q]) == Some(p[a].0);
                                            assert(q != s);
                                        }
                                    }
                                }
                            }
                        },
                    }
                },
            }
            s = s + 1;
        }
        assert(t.len() == segs@.len());
        assert(!missing_param(t, p));
        let mut a: usize = 0;
        while a < used.len()
            invariant
                a <= used.len(),
                has_route(self@, name@),
                t == path_segments(route_named(self@, name@).path_view()),
                t.len() == segs@.len(),
                p == params_view(params@),
                !duplicate_param(p),
                !missing_param(t, p),
                used@.len() == params@.len(),
                forall|c: int|
                    0 <= c < used@.len() ==> (used@[c] <==> exists|q: int|
                        0 <= q < t.len() && #[trigger] param_name(t[q]) == Some(p[c].0)),
                forall|b: int| 0 <= b < a ==> used@[b],
            decreases used.len() - a,
        {
            if !used[a] {
                proof {
                    assert(param_unused(t, p, a as int)) by {
                        assert forall|q: int| 0 <= q < t.len() implies param_name(t[q]) != Some(
                            p[a as int].0,
                        ) by {
                            if param_name(t[q]) == Some(p[a as int].0) {
                                assert(used@[a as int]);
                            }
                        }
                    }
                }
                let mut msg = String::new();
                push_str(&mut msg, "unused parameter for route `");
                push_str(&mut msg, name);
                push_str(&mut msg, "`");
                return Err(HttpError::with_message(400, msg));
            }
            a = a + 1;
        }
        proof {
            assert(fill_segments(t, p).take(t.len() as int) =~= fill_segments(t, p));
            assert(!missing_param(t, p));
            assert(!unused_param(t, p)) by {
                if unused_param(t, p) {
                    let j = choose|j: int| 0 <= j < p.len() && #[trigger] param_unused(t, p, j);
                    assert(used@[j]);
                    let q = choose|q: int| 0 <= q < t.len() && #[trigger] param_name(t[q]) == Some(p[j].0);
                    assert(param_name(t[q]) != Some(p[j].0));
                }
            }
        }
        Ok(join_parts(&parts, '/'))
    }

    /// Every route, in registration order.
    pub fn routes(&self) -> (r: &[Route])
        ensures
            r@ == self@,
    {
        self.routes.as_slice()
    }

    /// Number of routes.
    pub fn len(&self) -> (r: usize)
        ensures
            r == self@.len(),
    {
        self.routes.len()
    }

    /// Whether the collection has no routes.
    pub fn is_empty(&self) -> (r: bool)
        ensures
            r == (self@.len() == 0),
    {
        self.routes.len() == 0
    }
}

/// The request's path segments fit the template: as many segments, and equal
/// wherever the template segment is not a parameter.
pub open spec fn segments_fit(t: Seq<Seq<char>>, q: Seq<Seq<char>>) -> bool {
    t.len() == q.len() && forall|i: int|
        0 <= i < t.len() ==> (#[trigger] param_name(t[i]) is Some || t[i] == q[i])
}

/// The route's path fits the request path segments `q`.
pub open spec fn route_fits(r: Route, q: Seq<Seq<char>>) -> bool {
    segments_fit(path_segments(r.path_view()), q)
}

/// The route fits `q` and accepts `m`.
pub open spec fn route_accepts(r: Route, m: Method, q: Seq<Seq<char>>) -> bool {
    route_fits(r, q) && methods_allow(r.methods_view(), m)
}

/// Index of the first route that fits `q` and accepts `m`.
pub open spec fn first_accepting(rs: Seq<Route>, m: Method, q: Seq<Seq<char>>) -> Option<int>
    decreases rs.len(),
{
    if rs.len() == 0 {
        None
    } else {
        match first_accepting(rs.drop_last(), m, q) {
            Some(i) => Some(i),
            None => if route_accepts(rs.last(), m, q) {
                Some(rs.len() - 1)
            } else {
                None
            },
        }
    }
}

/// Some route fits `q`, whatever its methods.
pub open spec fn any_fits(rs: Seq<Route>, q: Seq<Seq<char>>) -> bool {
    exists|i: int| 0 <= i < rs.len() && #[trigger] route_fits(rs[i], q)
}

/// Parameter values captured from the first `n` segments (a later segment
/// with the same name wins).
pub open spec fn captures(t: Seq<Seq<char>>, q: Seq<Seq<char>>, n: nat) -> Map<Seq<char>, Seq<char>>
    decreases n,
{
    if n == 0 {
        Map::empty()
    } else {
        let m = captures(t, q, (n - 1) as nat);
        match param_name(t[n - 1]) {
            Some(k) => m.insert(k, q[n - 1]),
            None => m,
        }
    }
}

/// Parameter values of a path that fits a template.
pub open spec fn route_captures(t: Seq<Seq<char>>, q: Seq<Seq<char>>) -> Map<Seq<char>, Seq<char>> {
    captures(t, q, t.len())
}

pub open spec fn no_route_text(path: Seq<char>) -> Seq<char> {
    "no route matches `"@ + path + "`"@
}

pub open spec fn method_not_allowed_text(path: Seq<char>) -> Seq<char> {
    "method not allowed for `"@ + path + "`"@
}

/// A route chosen for a request, with its path parameters.
#[derive(Clone, Debug)]
pub struct RouteMatch {
    route_name: String,
    parameters: StringMap,
}

impl RouteMatch {
    pub closed spec fn route_name_view(&self) -> Seq<char> {
        self.route_name@
    }

    pub closed spec fn parameters_view(&self) -> Map<Seq<char>, Seq<char>> {
        self.parameters@
    }

    /// Name of the matched route.
    pub fn route_name(&self) -> (r: &str)
        ensures
            r@ == self.route_name_view(),
    {
        self.route_name.as_str()
    }

    /// Path parameters by name.
    pub fn parameters(&self) -> (r: &StringMap)
        ensures
            r@ == self.parameters_view(),
    {
        &self.parameters
    }
}

/// `v` is text equal to `s`.
pub open spec fn text_is(v: AttributeValue, s: Seq<char>) -> bool {
    v matches AttributeValue::Text(x) && x@ == s
}

/// Attributes `after` are `before` with every captured parameter stored as
/// text and the route name stored under [`ROUTE_ATTRIBUTE`].
pub open spec fn routed_attributes(
    before: Map<Seq<char>, AttributeValue>,
    after: Map<Seq<char>, AttributeValue>,
    params: Map<Seq<char>, Seq<char>>,
    name: Seq<char>,
) -> bool {
    &&& after.dom() == before.dom().union(params.dom()).insert(ROUTE_ATTRIBUTE@)
    &&& text_is(after[ROUTE_ATTRIBUTE@], name)
    &&& forall|k: Seq<char>|
        #![trigger after[k]]
        k != ROUTE_ATTRIBUTE@ && params.dom().contains(k) ==> text_is(after[k], params[k])
    &&& forall|k: Seq<char>|
        #![trigger after[k]]
        k != ROUTE_ATTRIBUTE@ && !params.dom().contains(k) && before.dom().contains(k) ==> after[k]
            == before[k]
}

/// Matches requests against a [`RouteCollection`].
#[derive(Debug)]
pub struct UrlMatcher {
    collection: RouteCollection,
}

/// Whether the template segments `t` fit the path segments `q`.
fn segments_fit_exec(t: &Vec<Vec<char>>, q: &Vec<Vec<char>>) -> (r: bool)
    ensures
        r == segments_fit(t@.map_values(|v: Vec<char>| v@), q@.map_values(|v: Vec<char>| v@)),
{
    let ghost tv = t@.map_values(|v: Vec<char>| v@);
    let ghost qv = q@.map_values(|v: Vec<char>| v@);
    if t.len() != q.len() {
        return false;
    }
    let mut k: usize = 0;
    while k < t.len()
        invariant
            k <= t.len(),
            t.len() == q.len(),
            tv == t@.map_values(|v: Vec<char>| v@),
            qv == q@.map_values(|v: Vec<char>| v@),
            forall|i: int| 0 <= i < k ==> (#[trigger] param_name(tv[i]) is Some || tv[i] == qv[i]),
        decreases t.len() - k,
    {
        assert(tv[k as int] == t@[k as int]@);
        assert(qv[k as int] == q@[k as int]@);
        if segment_param(&t[k]).is_none() && !crate::text::chars_eq(&t[k], &q[k]) {
            assert(!(param_name(tv[k as int]) is Some || tv[k as int] == qv[k as int]));
            return false;
        }
        k = k + 1;
    }
    true
}

impl UrlMatcher {
    pub closed spec fn collection_view(&self) -> Seq<Route> {
        self.collection@
    }

    /// Matcher over `collection`.
    pub fn new(collection: RouteCollection) -> (m: UrlMatcher)
        ensures
            m.collection_view() == collection@,
    {
        UrlMatcher { collection }
    }

    /// The routes matched against.
    pub fn collection(&self) -> (r: &RouteCollection)
        ensures
            r@ == self.collection_view(),
    {
        &self.collection
    }

    /// Index of the first route that fits `path` and accepts `method`, with
    /// the path's segments; 405 when some route fits but none accepts the
    /// method, 404 when none fits.
    fn locate(&self, method: Method, path: &str) -> (r: Result<(usize, Vec<Vec<char>>, Vec<Vec<char>>), HttpError>)
        ensures
            match r {
                Ok((i, t, q)) => {
                    &&& q@.map_values(|v: Vec<char>| v@) == path_segments(path@)
                    &&& first_accepting(self.collection_view(), method, path_segments(path@)) == Some(i as int)
                    &&& t@.map_values(|v: Vec<char>| v@) == path_segments(self.collection_view()[i as int].path_view())
                },
                Err(e) => first_accepting(self.collection_view(), method, path_segments(path@)) is None
                    && (any_fits(self.collection_view(), path_segments(path@)) ==> e.status_view() == 405
                        && e.message_view() == method_not_allowed_text(path@))
                    && (!any_fits(self.collection_view(), path_segments(path@)) ==> e.status_view() == 404
                        && e.message_view() == no_route_text(path@)),
            },
    {
        let ghost rs = self.collection_view();
        let pc = chars_of(path);
        let q = split_chars(&pc, '/');
        let ghost qv = path_segments(path@);
        let routes = self.collection.routes();
        let mut fits_any = false;
        let mut i: usize = 0;
        assert(rs.take(0) =~= Seq::<Route>::empty());
        while i < routes.len()
            invariant
                i <= routes.len(),
                routes@ == rs,
                rs == self.collection_view(),
                qv == path_segments(path@),
                q@.map_values(|v: Vec<char>| v@) == qv,
                first_accepting(rs.take(i as int), method, qv) is None,
                fits_any == exists|j: int| 0 <= j < i && #[trigger] route_fits(rs[j], qv),
            decreases routes.len() - i,
        {
            let route = &routes[i];
            let rc = chars_of(route.path());
            let t = split_chars(&rc, '/');
            let fit = segments_fit_exec(&t, &q);
            proof {
                assert(rs.take(i as int + 1).drop_last() =~= rs.take(i as int));
                assert(rs.take(i as int + 1).last() == rs[i as int]);
                assert(fit == route_fits(rs[i as int], qv));
            }
            if fit {
                fits_any = true;
                if route.allows(method) {
                    proof {
                        assert(first_accepting(rs.take(i as int + 1), method, qv) == Some(i as int));
                        lemma_first_accepting_prefix(rs, method, qv, i as int + 1);
                    }
                    return Ok((i, t, q));
                }
            }
            i = i + 1;
        }
        assert(rs.take(routes.len() as int) =~= rs);
        let mut msg = String::new();
        if fits_any {
            push_str(&mut msg, "method not allowed for `");
            push_str(&mut msg, path);
            push_str(&mut msg, "`");
            Err(HttpError::with_message(405, msg))
        } else {
            push_str(&mut msg, "no route matches `");
            push_str(&mut msg, path);
            push_str(&mut msg, "`");
            Err(HttpError::with_message(404, msg))
        }
    }

    /// The first route (in registration order) whose path fits `path` and
    /// that accepts `method`, with the values of its `{param}` segments.
    /// Errors: 405 when some route's path fits but none accepts the method,
    /// 404 when no route's path fits.
    pub fn match_request(&self, method: Method, path: &str) -> (r: Result<RouteMatch, HttpError>)
        ensures
            match first_accepting(self.collection_view(), method, path_segments(path@)) {
                Some(i) => r matches Ok(m) && m.route_name_view()
                    == self.collection_view()[i].name_view() && m.parameters_view()
                    == route_captures(
                    path_segments(self.collection_view()[i].path_view()),
                    path_segments(path@),
                ),
                None => r matches Err(e) && (any_fits(
                    self.collection_view(),
                    path_segments(path@),
                ) ==> e.status_view() == 405 && e.message_view() == method_not_allowed_text(
                    path@,
                )) && (!any_fits(self.collection_view(), path_segments(path@)) ==> e.status_view()
                    == 404 && e.message_view() == no_route_text(path@)),
            },
    {
        match self.locate(method, path) {
            Err(e) => Err(e),
            Ok((i, t, q)) => {
                let ghost tv = t@.map_values(|v: Vec<char>| v@);
                let ghost qv = q@.map_values(|v: Vec<char>| v@);
                proof {
                    lemma_first_accepting_bound(self.collection_view(), method, qv);
                    lemma_first_accepting_fits(self.collection_view(), method, qv);
                }
                let mut params = StringMap::new();
                let mut k: usize = 0;
                while k < t.len()
                    invariant
                        k <= t.len(),
                        t.len() == q.len(),
                        tv == t@.map_values(|v: Vec<char>| v@),
                        qv == q@.map_values(|v: Vec<char>| v@),
                        params@ == captures(tv, qv, k as nat),
                    decreases t.len() - k,
                {
                    assert(tv[k as int] == t@[k as int]@);
                    assert(qv[k as int] == q@[k as int]@);
                    match segment_param(&t[k]) {
                        Some(n) => {
                            params.insert(string_of(&n), string_of(&q[k]));
                        },
                        None => {},
                    }
                    k = k + 1;
                }
                let name = self.collection.routes()[i].name().to_owned();
                Ok(RouteMatch { route_name: name, parameters: params })
            },
        }
    }

    /// Matches the request and stores each path parameter as text in its
    /// attributes, and the route's name under [`ROUTE_ATTRIBUTE`]; on error
    /// the request is left as it was.
    pub fn apply(&self, request: &mut Request) -> (r: Result<RouteMatch, HttpError>)
        ensures
            final(request).method_view() == old(request).method_view(),
            final(request).path_view() == old(request).path_view(),
            final(request).headers_view() == old(request).headers_view(),
            match first_accepting(
                self.collection_view(),
                old(request).method_view(),
                path_segments(old(request).path_view()),
            ) {
                Some(i) => r matches Ok(m) && m.route_name_view()
                    == self.collection_view()[i].name_view() && m.parameters_view()
                    == route_captures(
                    path_segments(self.collection_view()[i].path_view()),
                    path_segments(old(request).path_view()),
                ) && routed_attributes(
                    old(request).attributes_view(),
                    final(request).attributes_view(),
                    m.parameters_view(),
                    m.route_name_view(),
                ),
                None => r is Err && final(request).attributes_view() == old(
                    request,
                ).attributes_view(),
            },
            r matches Err(e) ==> (e.status_view() == 404 || e.status_view() == 405),
    {
        let method = request.method();
        let located = {
            let path = request.path();
            self.locate(method, path)
        };
        let (i, t, q) = match located {
            Err(e) => {
                return Err(e);
            },
            Ok(found) => found,
        };
        let ghost tv = t@.map_values(|v: Vec<char>| v@);
        let ghost qv = q@.map_values(|v: Vec<char>| v@);
        let ghost before = request.attributes_view();
        proof {
            lemma_first_accepting_bound(self.collection_view(), method, qv);
            lemma_first_accepting_fits(self.collection_view(), method, qv);
            assert(before.dom().union(Map::<Seq<char>, Seq<char>>::empty().dom()) =~= before.dom());
        }
        let mut params = StringMap::new();
        let mut k: usize = 0;
        while k < t.len()
            invariant
                k <= t.len(),
                t.len() == q.len(),
                tv == t@.map_values(|v: Vec<char>| v@),
                qv == q@.map_values(|v: Vec<char>| v@),
                params@ == captures(tv, qv, k as nat),
                request.method_view() == old(request).method_view(),
                request.path_view() == old(request).path_view(),
                request.headers_view() == old(request).headers_view(),
                before == old(request).attributes_view(),
                request.attributes_view().dom() == before.dom().union(params@.dom()),
                forall|x: Seq<char>|
                    #![trigger request.attributes_view()[x]]
                    params@.dom().contains(x) ==> text_is(request.attributes_view()[x], params@[x]),
                forall|x: Seq<char>|
                    #![trigger request.attributes_view()[x]]
                    !params@.dom().contains(x) && before.dom().contains(x) ==> request.attributes_view()[x]
                        == before[x],
            decreases t.len() - k,
        {
            assert(tv[k as int] == t@[k as int]@);
            assert(qv[k as int] == q@[k as int]@);
            match segment_param(&t[k]) {
                Some(n) => {
                    let ghost a0 = request.attributes_view();
                    let ghost p0 = params@;
                    let key = string_of(&n);
                    let value = string_of(&q[k]);
                    request.attributes_mut().insert(key.as_str(), string_of(&q[k]));
                    params.insert(key, value);
                    proof {
                        assert(request.attributes_view().dom() =~= before.dom().union(params@.dom()));
                    }
                },
                None => {},
            }
            k = k + 1;
        }
        let name = self.collection.routes()[i].name().to_owned();
        let ghost caps = params@;
        let ghost mid = request.attributes_view();
        request.attributes_mut().insert(ROUTE_ATTRIBUTE, name.clone());
        proof {
            assert(request.attributes_view().dom() =~= before.dom().union(caps.dom()).insert(
                ROUTE_ATTRIBUTE@,
            ));
        }
        Ok(RouteMatch { route_name: name, parameters: params })
    }
}

/// The first accepting route in a prefix is the first accepting route overall.
proof fn lemma_first_accepting_prefix(rs: Seq<Route>, m: Method, q: Seq<Seq<char>>, n: int)
    requires
        0 <= n <= rs.len(),
        first_accepting(rs.take(n), m, q) is Some,
    ensures
        first_accepting(rs, m, q) == first_accepting(rs.take(n), m, q),
    decreases rs.len() - n,
{
    if n < rs.len() {
        assert(rs.take(n + 1).drop_last() =~= rs.take(n));
        assert(first_accepting(rs.take(n + 1), m, q) == first_accepting(rs.take(n), m, q));
        lemma_first_accepting_prefix(rs, m, q, n + 1);
    } else {
        assert(rs.take(n) =~= rs);
    }
}

proof fn lemma_first_accepting_bound(rs: Seq<Route>, m: Method, q: Seq<Seq<char>>)
    ensures
        first_accepting(rs, m, q) matches Some(i) ==> 0 <= i < rs.len(),
    decreases rs.len(),
{
    if rs.len() > 0 {
        lemma_first_accepting_bound(rs.drop_last(), m, q);
    }
}

proof fn lemma_first_accepting_fits(rs: Seq<Route>, m: Method, q: Seq<Seq<char>>)
    ensures
        first_accepting(rs, m, q) matches Some(i) ==> route_accepts(rs[i], m, q),
    decreases rs.len(),
{
    if rs.len() > 0 {
        lemma_first_accepting_fits(rs.drop_last(), m, q);
        lemma_first_accepting_bound(rs.drop_last(), m, q);
    }
}

/// Contributes routes to a collection (bundles, apps).
pub trait RouteLoader {
    fn load(&self, collection: &mut RouteCollection) -> Result<(), HttpError>;
}

/// Collection filled by each loader in turn; the first error stops loading.
pub fn load_routes(loaders: &[&dyn RouteLoader]) -> (r: Result<RouteCollection, HttpError>)
    ensures
        loaders@.len() == 0 ==> (r matches Ok(c) && c@.len() == 0),
{
    let mut collection = RouteCollection::new();
    let mut i: usize = 0;
    while i < loaders.len()
        invariant
            i <= loaders.len(),
            i == 0 ==> collection@.len() == 0,
        decreases loaders.len() - i,
    {
        loaders[i].load(&mut collection)?;
        i = i + 1;
    }
    Ok(collection)
}

proof fn lemma_concat_plain(a: Seq<char>, b: Seq<char>, c: char)
    requires
        !a.contains(c),
        !b.contains(c),
    ensures
        !(a + b).contains(c),
{
    if (a + b).contains(c) {
        let k = choose|k: int| 0 <= k < (a + b).len() && (a + b)[k] == c;
        if k < a.len() {
            assert(a[k] == c);
        } else {
            assert(b[k - a.len()] == c);
        }
    }
}

/// Percent-encoded text holds no `/`.
proof fn lemma_pct_bytes_no_slash(b: Seq<u8>)
    ensures
        !pct_bytes(b).contains('/'),
    decreases b.len(),
{
    if b.len() > 0 {
        lemma_pct_bytes_no_slash(b.drop_last());
        let x = b.last();
        let tail = if unreserved(x) {
            seq![(x as u32) as char]
        } else {
            seq!['%', hex_upper((x / 16) as nat), hex_upper((x % 16) as nat)]
        };
        assert(!tail.contains('/')) by {
            if tail.contains('/') {
                let k = choose|k: int| 0 <= k < tail.len() && tail[k] == '/';
                assert(tail[k] == '/');
            }
        }
        lemma_concat_plain(pct_bytes(b.drop_last()), tail, '/');
    }
}

/// Parameter values captured from the first `n` segments of the filled
/// template: each `{param}` segment's name, with the encoded value given
/// for it.
proof fn lemma_captures_filled(t: Seq<Seq<char>>, p: Seq<(Seq<char>, Seq<char>)>, n: nat)
    requires
        n <= t.len(),
    ensures
        forall|k: Seq<char>|
            #![trigger captures(t, fill_segments(t, p), n).dom().contains(k)]
            captures(t, fill_segments(t, p), n).dom().contains(k) <==> exists|i: int|
                0 <= i < n && param_name(t[i]) == Some(k),
        forall|k: Seq<char>|
            #![trigger captures(t, fill_segments(t, p), n)[k]]
            captures(t, fill_segments(t, p), n).dom().contains(k) ==> captures(
                t,
                fill_segments(t, p),
                n,
            )[k] == pct_encode(param_value(p, k)->0),
    decreases n,
{
    let q = fill_segments(t, p);
    if n > 0 {
        lemma_captures_filled(t, p, (n - 1) as nat);
        let m = captures(t, q, (n - 1) as nat);
        let i = n - 1;
        assert forall|k: Seq<char>|
            captures(t, q, n).dom().contains(k) <==> exists|j: int|
                0 <= j < n && param_name(t[j]) == Some(k) by {
            if captures(t, q, n).dom().contains(k) {
                if !m.dom().contains(k) {
                    assert(param_name(t[i]) == Some(k));
                }
            }
            if exists|j: int| 0 <= j < n && param_name(t[j]) == Some(k) {
                let j = choose|j: int| 0 <= j < n && param_name(t[j]) == Some(k);
                if j < i {
                    assert(m.dom().contains(k));
                }
            }
        }
        match param_name(t[i]) {
            Some(k) => {
                assert(q[i] == pct_encode(param_value(p, k)->0));
            },
            None => {},
        }
    }
}

/// Reverse routing round trip: the path that [`RouteCollection::generate`]
/// gives for a template and parameters that leave no `{param}` segment
/// without a value splits back into the filled segments, fits the template,
/// and matching it captures exactly the template's parameters, each with
/// the percent-encoded value given for it.
pub proof fn lemma_generated_path_round_trip(path: Seq<char>, p: Seq<(Seq<char>, Seq<char>)>)
    requires
        !missing_param(path_segments(path), p),
    ensures
        ({
            let t = path_segments(path);
            let q = path_segments(join_with(fill_segments(t, p), '/'));
            &&& q == fill_segments(t, p)
            &&& segments_fit(t, q)
            &&& forall|k: Seq<char>|
                #![trigger route_captures(t, q).dom().contains(k)]
                route_captures(t, q).dom().contains(k) <==> exists|i: int|
                    0 <= i < t.len() && param_name(t[i]) == Some(k)
            &&& forall|k: Seq<char>|
                #![trigger route_captures(t, q)[k]]
                route_captures(t, q).dom().contains(k) ==> route_captures(t, q)[k] == pct_encode(
                    param_value(p, k)->0,
                )
        }),
{
    let t = path_segments(path);
    let f = fill_segments(t, p);
    lemma_split_on_nonempty(path, '/');
    lemma_split_on_parts_plain(path, '/');
    assert forall|i: int| 0 <= i < f.len() implies !(#[trigger] f[i]).contains('/') by {
        match param_name(t[i]) {
            Some(n) => {
                lemma_pct_bytes_no_slash(vstd::utf8::encode_utf8(param_value(p, n)->0));
            },
            None => {
                assert(!t[i].contains('/'));
            },
        }
    }
    lemma_split_join(f, '/');
    assert forall|i: int| 0 <= i < t.len() implies (#[trigger] param_name(t[i]) is Some || t[i]
        == f[i]) by {}
    lemma_captures_filled(t, p, t.len());
}

} // verus!
