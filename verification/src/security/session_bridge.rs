//! Persist an authenticated identity in a [`Session`].

use vstd::prelude::*;

use crate::security::identity::{
    decode_identity_text, decode_roles, encode_identity_text, escape_roles, escape_text, id_esc,
    identity_id_part, identity_roles_part, keep_nonempty, lemma_decode_encode_identity,
    lemma_prepend_twice, lemma_split_escaped_nonempty, prepend_first,
    split_escaped, unesc_char, unescape_parts, unescape_text,
};
use crate::http::attributes::{Attribute, AttributeValue};
use crate::http::error::HttpError;
use crate::http::kernel::{Middleware, RequestHandler};
use crate::http::request::Request;
use crate::http::response::Response;
use crate::security::firewall::{attr_token, TOKEN_ATTRIBUTE};
use crate::session::middleware::{attr_session, request_session};
use crate::security::user::{InMemoryUser, TokenInterface, UserInterface, UsernamePasswordToken};
use crate::session::session::Session;
use crate::text::{chars_of, find_char, join_with, lemma_join_with_push, push_char, push_chars, slice_chars, string_of, strings_view};

verus! {

/// Session attribute key for the stored security identity.
pub const SECURITY_SESSION_KEY: &'static str = "_serenade.security_token";

/// Id and roles of an authenticated token that carries a user.
pub open spec fn token_identity(t: UsernamePasswordToken) -> Option<(Seq<char>, Seq<Seq<char>>)> {
    if t.authenticated_view() {
        match t.user_view() {
            Some(u) => Some((u.id_view(), u.roles_view())),
            None => None,
        }
    } else {
        None
    }
}

/// Session attributes after [`login`] with `t`.
pub open spec fn login_attrs(
    attrs: Map<Seq<char>, Seq<char>>,
    t: UsernamePasswordToken,
) -> Map<Seq<char>, Seq<char>> {
    match token_identity(t) {
        Some(p) => attrs.insert(SECURITY_SESSION_KEY@, encode_identity_text(p.0, p.1)),
        None => attrs.remove(SECURITY_SESSION_KEY@),
    }
}

/// Identity stored in session attributes, when one can be read back.
pub open spec fn session_identity(attrs: Map<Seq<char>, Seq<char>>) -> Option<
    (Seq<char>, Seq<Seq<char>>),
> {
    if attrs.dom().contains(SECURITY_SESSION_KEY@) {
        decode_identity_text(attrs[SECURITY_SESSION_KEY@])
    } else {
        None
    }
}

/// Logging in with a token that carries a user stores an identity that reads
/// back as the user's id with its non-empty roles, unless the id is empty;
/// logging in with any other token leaves no identity.
pub proof fn lemma_login_restores(attrs: Map<Seq<char>, Seq<char>>, t: UsernamePasswordToken)
    ensures
        session_identity(login_attrs(attrs, t)) == match token_identity(t) {
            Some(p) => if p.0.len() > 0 {
                Some((p.0, keep_nonempty(p.1)))
            } else {
                None
            },
            None => None,
        },
{
    match token_identity(t) {
        Some(p) => {
            lemma_decode_encode_identity(p.0, p.1);
        },
        None => {},
    }
}

/// After logging out no identity is stored.
pub proof fn lemma_logout_clears(attrs: Map<Seq<char>, Seq<char>>)
    ensures
        session_identity(attrs.remove(SECURITY_SESSION_KEY@)) is None,
{
}

/// Escapes `\`, newline and `|` in an id or role.
pub fn escape(value: &str) -> (out: String)
    ensures
        out@ == escape_text(value@),
{
    let v = chars_of(value);
    let mut out = String::new();
    let mut i: usize = 0;
    assert(v@.skip(0) =~= v@);
    assert(escape_text(v@) =~= out@ + escape_text(v@.skip(0)));
    while i < v.len()
        invariant
            i <= v.len(),
            escape_text(v@) == out@ + escape_text(v@.skip(i as int)),
        decreases v.len() - i,
    {
        let c = v[i];
        let ghost rest = v@.skip(i as int);
        let ghost before = out@;
        if c == '\\' {
            push_char(&mut out, '\\');
            push_char(&mut out, '\\');
        } else if c == '\n' {
            push_char(&mut out, '\\');
            push_char(&mut out, 'n');
        } else if c == '|' {
            push_char(&mut out, '\\');
            push_char(&mut out, '|');
        } else {
            push_char(&mut out, c);
        }
        proof {
            assert(out@ =~= before + id_esc(c));
            assert(rest.skip(1) =~= v@.skip(i as int + 1));
            assert(escape_text(rest) == id_esc(c) + escape_text(v@.skip(i as int + 1)));
            assert(before + (id_esc(c) + escape_text(v@.skip(i as int + 1))) =~= out@
                + escape_text(v@.skip(i as int + 1)));
        }
        i = i + 1;
    }
    assert(v@.skip(v.len() as int) =~= Seq::<char>::empty());
    assert(out@ + Seq::<char>::empty() =~= out@);
    out
}

fn unescape_chars(v: &[char]) -> (out: Vec<char>)
    ensures
        out@ == unescape_text(v@),
{
    let mut out: Vec<char> = Vec::new();
    let mut i: usize = 0;
    assert(v@.skip(0) =~= v@);
    assert(out@ + unescape_text(v@) =~= unescape_text(v@));
    while i < v.len()
        invariant
            i <= v.len(),
            unescape_text(v@) == out@ + unescape_text(v@.skip(i as int)),
        decreases v.len() - i,
    {
        let ghost rest = v@.skip(i as int);
        let ghost before = out@;
        let c = v[i];
        if c != '\\' {
            out.push(c);
            assert(rest.skip(1) =~= v@.skip(i as int + 1));
            assert(before + (seq![c] + unescape_text(v@.skip(i as int + 1))) =~= out@
                + unescape_text(v@.skip(i as int + 1)));
            i = i + 1;
        } else if i + 1 == v.len() {
            out.push('\\');
            assert(v@.skip(i as int + 1) =~= Seq::<char>::empty());
            assert(before + seq!['\\'] =~= out@ + unescape_text(v@.skip(i as int + 1)));
            i = i + 1;
        } else {
            let d = v[i + 1];
            if d == 'n' {
                out.push('\n');
            } else if d == '|' {
                out.push('|');
            } else if d == '\\' {
                out.push('\\');
            } else {
                out.push('\\');
                out.push(d);
            }
            assert(out@ =~= before + unesc_char(d));
            assert(rest.skip(2) =~= v@.skip(i as int + 2));
            assert(before + (unesc_char(d) + unescape_text(v@.skip(i as int + 2))) =~= out@
                + unescape_text(v@.skip(i as int + 2)));
            i = i + 2;
        }
    }
    assert(v@.skip(v.len() as int) =~= Seq::<char>::empty());
    assert(out@ + Seq::<char>::empty() =~= out@);
    out
}

/// Undoes [`escape`]: `\n`, `\|` and `\\` are decoded; other pairs and a
/// trailing `\` are kept as written.
pub fn unescape(value: &str) -> (out: String)
    ensures
        out@ == unescape_text(value@),
{
    let v = chars_of(value);
    string_of(&unescape_chars(&v))
}

/// Views of a list of character vectors.
pub open spec fn parts_view(v: Seq<Vec<char>>) -> Seq<Seq<char>> {
    v.map_values(|p: Vec<char>| p@)
}

fn split_escaped_chars(v: &[char], sep: char) -> (out: Vec<Vec<char>>)
    ensures
        parts_view(out@) == split_escaped(v@, sep),
{
    let mut done: Vec<Vec<char>> = Vec::new();
    let mut cur: Vec<char> = Vec::new();
    let mut i: usize = 0;
    proof {
        assert(v@.skip(0) =~= v@);
        lemma_split_escaped_nonempty(v@, sep);
        let p = split_escaped(v@, sep);
        assert(parts_view(done@) + prepend_first(cur@, p) =~= p);
    }
    while i < v.len()
        invariant
            i <= v.len(),
            split_escaped(v@, sep) == parts_view(done@) + prepend_first(
                cur@,
                split_escaped(v@.skip(i as int), sep),
            ),
        decreases v.len() - i,
    {
        let ghost rest = v@.skip(i as int);
        let ghost d0 = parts_view(done@);
        let ghost c0 = cur@;
        let c = v[i];
        if c == '\\' {
            if i + 1 == v.len() {
                cur.push('\\');
                proof {
                    assert(v@.skip(i as int + 1) =~= Seq::<char>::empty());
                    assert(rest.len() == 1);
                    assert(split_escaped(rest, sep) == seq![seq!['\\']]);
                    assert(c0 + seq!['\\'] =~= cur@);
                    assert(prepend_first(c0, seq![seq!['\\']]) =~= seq![cur@]);
                    assert(cur@ + Seq::<char>::empty() =~= cur@);
                    assert(prepend_first(cur@, seq![seq![]]) =~= seq![cur@]);
                }
                i = i + 1;
            } else {
                let d = v[i + 1];
                cur.push(c);
                cur.push(d);
                proof {
                    assert(rest.skip(2) =~= v@.skip(i as int + 2));
                    assert(rest.take(2) =~= seq![c, d]);
                    lemma_split_escaped_nonempty(v@.skip(i as int + 2), sep);
                    lemma_prepend_twice(c0, seq![c, d], split_escaped(v@.skip(i as int + 2), sep));
                    assert(c0 + seq![c, d] =~= cur@);
                }
                i = i + 2;
            }
        } else if c == sep {
            done.push(cur);
            cur = Vec::new();
            proof {
                let x = split_escaped(v@.skip(i as int + 1), sep);
                assert(rest.skip(1) =~= v@.skip(i as int + 1));
                lemma_split_escaped_nonempty(v@.skip(i as int + 1), sep);
                assert(parts_view(done@) =~= d0.push(c0));
                assert(prepend_first(c0, seq![seq![]] + x) =~= seq![c0] + x);
                assert(prepend_first(cur@, x) =~= x);
                assert(d0 + (seq![c0] + x) =~= d0.push(c0) + x);
            }
            i = i + 1;
        } else {
            cur.push(c);
            proof {
                assert(rest.skip(1) =~= v@.skip(i as int + 1));
                lemma_split_escaped_nonempty(v@.skip(i as int + 1), sep);
                lemma_prepend_twice(c0, seq![c], split_escaped(v@.skip(i as int + 1), sep));
                assert(c0 + seq![c] =~= cur@);
            }
            i = i + 1;
        }
    }
    let ghost d0 = parts_view(done@);
    proof {
        assert(v@.skip(v.len() as int) =~= Seq::<char>::empty());
        assert(prepend_first(cur@, seq![seq![]]) =~= seq![cur@]);
    }
    done.push(cur);
    assert(parts_view(done@) =~= d0 + seq![cur@]);
    done
}

/// Splits `value` at every `sep` that is not escaped; escape pairs are kept
/// as written.
pub fn split_unescaped(value: &str, sep: char) -> (out: Vec<String>)
    ensures
        strings_view(out@) == split_escaped(value@, sep),
{
    let v = chars_of(value);
    let parts = split_escaped_chars(&v, sep);
    let mut out: Vec<String> = Vec::new();
    let mut j: usize = 0;
    while j < parts.len()
        invariant
            j <= parts.len(),
            strings_view(out@) == parts_view(parts@).take(j as int),
        decreases parts.len() - j,
    {
        let s = string_of(&parts[j]);
        let ghost before = strings_view(out@);
        out.push(s);
        assert(strings_view(out@) =~= before.push(parts@[j as int]@));
        assert(parts_view(parts@).take(j as int + 1) =~= parts_view(parts@).take(j as int).push(
            parts@[j as int]@,
        ));
        j = j + 1;
    }
    assert(parts_view(parts@).take(parts.len() as int) =~= parts_view(parts@));
    out
}

/// Stored text for `user_id` with `roles`: escaped id, newline, escaped roles
/// joined by `|`.
pub fn encode_identity(user_id: &str, roles: &[String]) -> (out: String)
    ensures
        out@ == encode_identity_text(user_id@, strings_view(roles@)),
{
    let mut out = escape(user_id);
    push_char(&mut out, '\n');
    let ghost head = out@;
    let ghost es = escape_roles(strings_view(roles@));
    let mut i: usize = 0;
    assert(es.take(0) =~= Seq::<Seq<char>>::empty());
    while i < roles.len()
        invariant
            i <= roles.len(),
            es == escape_roles(strings_view(roles@)),
            out@ == head + join_with(es.take(i as int), '|'),
        decreases roles.len() - i,
    {
        let ghost before = out@;
        if i > 0 {
            push_char(&mut out, '|');
        }
        let e = escape(roles[i].as_str());
        let ghost mid = out@;
        crate::text::push_str(&mut out, e.as_str());
        proof {
            assert(es[i as int] == escape_text(roles@[i as int]@));
            assert(es.take(i as int + 1) =~= es.take(i as int).push(es[i as int]));
            lemma_join_with_push(es.take(i as int), es[i as int], '|');
            if i > 0 {
                assert(out@ =~= head + (join_with(es.take(i as int), '|') + seq!['|'] + es[i as int]));
            } else {
                assert(join_with(es.take(i as int), '|') =~= Seq::<char>::empty());
                assert(out@ =~= head + es[i as int]);
            }
        }
        i = i + 1;
    }
    assert(es.take(roles.len() as int) =~= es);
    out
}

/// Reads an identity back from stored text; `None` when the id is empty.
/// Empty role names are dropped.
pub fn decode_identity(raw: &str) -> (r: Option<(String, Vec<String>)>)
    ensures
        match r {
            Some(p) => decode_identity_text(raw@) == Some((p.0@, strings_view(p.1@))),
            None => decode_identity_text(raw@) is None,
        },
{
    let v = chars_of(raw);
    let nl = find_char(&v, '\n');
    let (id_raw, roles_raw) = match nl {
        Some(i) => (slice_chars(&v, 0, i), slice_chars(&v, i + 1, v.len())),
        None => (slice_chars(&v, 0, v.len()), Vec::new()),
    };
    proof {
        match nl {
            Some(i) => {
                assert(id_raw@ =~= identity_id_part(v@));
                assert(roles_raw@ =~= identity_roles_part(v@));
            },
            None => {
                assert(id_raw@ =~= identity_id_part(v@));
                assert(roles_raw@ =~= identity_roles_part(v@));
            },
        }
    }
    let id = unescape_chars(&id_raw);
    if id.len() == 0 {
        return None;
    }
    let mut roles: Vec<String> = Vec::new();
    if roles_raw.len() > 0 {
        let parts = split_escaped_chars(&roles_raw, '|');
        let ghost u = unescape_parts(parts_view(parts@));
        let mut j: usize = 0;
        assert(u.take(0) =~= Seq::<Seq<char>>::empty());
        while j < parts.len()
            invariant
                j <= parts.len(),
                u == unescape_parts(parts_view(parts@)),
                strings_view(roles@) == keep_nonempty(u.take(j as int)),
            decreases parts.len() - j,
        {
            let part = unescape_chars(&parts[j]);
            let ghost before = strings_view(roles@);
            proof {
                assert(u[j as int] == part@);
                assert(u.take(j as int + 1).drop_last() =~= u.take(j as int));
                assert(u.take(j as int + 1).last() == part@);
            }
            if part.len() > 0 {
                roles.push(string_of(&part));
                assert(strings_view(roles@) =~= before.push(part@));
            }
            j = j + 1;
        }
        assert(u.take(parts.len() as int) =~= u);
    }
    Some((string_of(&id), roles))
}

/// Stores the identity of an authenticated token that carries a user (id and
/// roles, never the credentials); any other token clears it, as [`logout`].
pub fn login(session: &mut Session, token: &UsernamePasswordToken)
    ensures
        final(session)@ == login_attrs(old(session)@, *token),
        final(session).id_view() == old(session).id_view(),
        final(session).new_view() == old(session).new_view(),
        final(session).invalidated_view() == old(session).invalidated_view(),
{
    if !token.is_authenticated() {
        logout(session);
        return;
    }
    match token.user() {
        None => {
            logout(session);
        },
        Some(user) => {
            let text = encode_identity(user.user_identifier(), user.roles());
            session.set(SECURITY_SESSION_KEY, text.as_str());
        },
    }
}

/// Removes the stored identity from `session`.
pub fn logout(session: &mut Session)
    ensures
        final(session)@ == old(session)@.remove(SECURITY_SESSION_KEY@),
        final(session).id_view() == old(session).id_view(),
        final(session).new_view() == old(session).new_view(),
        final(session).invalidated_view() == old(session).invalidated_view(),
{
    let _ = session.remove(SECURITY_SESSION_KEY);
}

/// Authenticated token (empty credentials) for the identity stored in
/// `session`, when one can be read back.
pub fn token_from_session(session: &Session) -> (r: Option<UsernamePasswordToken>)
    ensures
        r.is_some() == session_identity(session@).is_some(),
        r matches Some(t) ==> token_identity(t) == session_identity(session@)
            && t.credentials_view() == Some(Seq::<char>::empty()),
{
    let raw = match session.get(SECURITY_SESSION_KEY) {
        Some(raw) => raw,
        None => {
            return None;
        },
    };
    match decode_identity(raw) {
        None => None,
        Some((id, roles)) => {
            let user = InMemoryUser::new(id.as_str(), roles);
            let t = UsernamePasswordToken::authenticated(user, "");
            proof {
                reveal_strlit("");
            }
            Some(t)
        },
    }
}

/// `after` is `before` with the security token restored from the session's
/// stored identity: unchanged when a token is already set or no identity can
/// be read back.
pub open spec fn token_restored(before: Request, after: Request) -> bool {
    &&& after.method_view() == before.method_view()
    &&& after.path_view() == before.path_view()
    &&& after.headers_view() == before.headers_view()
    &&& {
        let b = before.attributes_view();
        let a = after.attributes_view();
        if attr_token(before) is Some {
            a == b
        } else {
            match attr_session(before) {
                Some(s) => match session_identity(s@) {
                    Some(p) => exists|t: UsernamePasswordToken|
                        a == b.insert(TOKEN_ATTRIBUTE@, AttributeValue::Token(t)) && token_identity(
                            t,
                        ) == Some(p) && t.credentials_view() == Some(Seq::<char>::empty()),
                    None => a == b,
                },
                None => a == b,
            }
        }
    }
}

/// Sets the request's security token from the session's stored identity,
/// unless a token is already set or no identity can be read back.
pub fn restore_token_attribute(request: &mut Request)
    ensures
        token_restored(*old(request), *final(request)),
{
    if request.attributes().get::<UsernamePasswordToken>(TOKEN_ATTRIBUTE).is_some() {
        return;
    }
    let token = match request_session(request) {
        None => {
            return;
        },
        Some(session) => match token_from_session(session) {
            None => {
                return;
            },
            Some(t) => t,
        },
    };
    let ghost tv = token;
    request.attributes_mut().insert(TOKEN_ATTRIBUTE, token);
    assert(AttributeValue::Token(tv) == tv.wrap_spec());
}

/// Middleware that restores the session identity as the request's security
/// token when none is set yet.
#[derive(Clone, Copy, Debug, Default)]
pub struct SessionTokenMiddleware;

impl SessionTokenMiddleware {
    pub fn new() -> (m: SessionTokenMiddleware) {
        SessionTokenMiddleware
    }
}

impl Middleware for SessionTokenMiddleware {
    /// Restores the token (see [`restore_token_attribute`]), then runs the
    /// rest of the chain.
    fn process(&self, request: &mut Request, next: &dyn RequestHandler) -> (r: Result<
        Response,
        HttpError,
    >)
        ensures
            exists|restored: Request|
                #![trigger token_restored(*old(request), restored)]
                token_restored(*old(request), restored) && next.handles(restored, *final(request), r),
    {
        restore_token_attribute(request);
        let ghost restored = *request;
        let r = next.handle(request);
        assert(token_restored(*old(request), restored));
        r
    }
}

/// Async variant of [`SessionTokenMiddleware`].
#[derive(Clone, Copy, Debug, Default)]
pub struct AsyncSessionTokenMiddleware;

impl AsyncSessionTokenMiddleware {
    pub fn new() -> (m: AsyncSessionTokenMiddleware) {
        AsyncSessionTokenMiddleware
    }
}

} // verus!
