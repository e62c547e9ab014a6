//! Text form of an authenticated identity kept in a session attribute: the
//! escaped user id, a newline, then the escaped role names joined by `|`.

use vstd::prelude::*;

use crate::text::{first_index, join_with, lemma_first_index_at};

verus! {

/// Escape sequence for one character of an id or role.
pub open spec fn id_esc(c: char) -> Seq<char> {
    if c == '\\' {
        seq!['\\', '\\']
    } else if c == '\n' {
        seq!['\\', 'n']
    } else if c == '|' {
        seq!['\\', '|']
    } else {
        seq![c]
    }
}

/// Escaped form of an id or role.
pub open spec fn escape_text(s: Seq<char>) -> Seq<char>
    decreases s.len(),
{
    if s.len() == 0 {
        seq![]
    } else {
        id_esc(s[0]) + escape_text(s.skip(1))
    }
}

/// Text produced by the escape pair `\c`.
pub open spec fn unesc_char(c: char) -> Seq<char> {
    if c == 'n' {
        seq!['\n']
    } else if c == '|' {
        seq!['|']
    } else if c == '\\' {
        seq!['\\']
    } else {
        seq!['\\', c]
    }
}

/// Inverse of [`escape_text`]; unknown pairs and a trailing `\` stay as written.
pub open spec fn unescape_text(s: Seq<char>) -> Seq<char>
    decreases s.len(),
{
    if s.len() == 0 {
        seq![]
    } else if s[0] != '\\' {
        seq![s[0]] + unescape_text(s.skip(1))
    } else if s.len() == 1 {
        seq!['\\']
    } else {
        unesc_char(s[1]) + unescape_text(s.skip(2))
    }
}

/// `parts` with `p` put in front of its first part.
pub open spec fn prepend_first(p: Seq<char>, parts: Seq<Seq<char>>) -> Seq<Seq<char>> {
    parts.update(0, p + parts[0])
}

/// Parts of `s` between occurrences of `sep` that are not part of an escape
/// pair; escape pairs are kept as written, a trailing `\` too.
pub open spec fn split_escaped(s: Seq<char>, sep: char) -> Seq<Seq<char>>
    decreases s.len(),
{
    if s.len() == 0 {
        seq![seq![]]
    } else if s[0] == '\\' {
        if s.len() == 1 {
            seq![seq!['\\']]
        } else {
            prepend_first(s.take(2), split_escaped(s.skip(2), sep))
        }
    } else if s[0] == sep {
        seq![seq![]] + split_escaped(s.skip(1), sep)
    } else {
        prepend_first(seq![s[0]], split_escaped(s.skip(1), sep))
    }
}

/// The non-empty parts, in order.
pub open spec fn keep_nonempty(parts: Seq<Seq<char>>) -> Seq<Seq<char>>
    decreases parts.len(),
{
    if parts.len() == 0 {
        seq![]
    } else if parts.last().len() == 0 {
        keep_nonempty(parts.drop_last())
    } else {
        keep_nonempty(parts.drop_last()).push(parts.last())
    }
}

/// Every role escaped.
pub open spec fn escape_roles(roles: Seq<Seq<char>>) -> Seq<Seq<char>> {
    roles.map_values(|r: Seq<char>| escape_text(r))
}

/// Every part unescaped.
pub open spec fn unescape_parts(parts: Seq<Seq<char>>) -> Seq<Seq<char>> {
    parts.map_values(|p: Seq<char>| unescape_text(p))
}

/// Stored text for user `id` with `roles`.
pub open spec fn encode_identity_text(id: Seq<char>, roles: Seq<Seq<char>>) -> Seq<char> {
    escape_text(id) + seq!['\n'] + join_with(escape_roles(roles), '|')
}

/// Text before the first newline (all of it when there is none).
pub open spec fn identity_id_part(raw: Seq<char>) -> Seq<char> {
    match first_index(raw, '\n') {
        Some(i) => raw.take(i),
        None => raw,
    }
}

/// Text after the first newline (empty when there is none).
pub open spec fn identity_roles_part(raw: Seq<char>) -> Seq<char> {
    match first_index(raw, '\n') {
        Some(i) => raw.skip(i + 1),
        None => seq![],
    }
}

/// Roles read back from the role text: empty names are dropped.
pub open spec fn decode_roles(roles_raw: Seq<char>) -> Seq<Seq<char>> {
    if roles_raw.len() == 0 {
        seq![]
    } else {
        keep_nonempty(unescape_parts(split_escaped(roles_raw, '|')))
    }
}

/// Identity read back from stored text; `None` when the id is empty.
pub open spec fn decode_identity_text(raw: Seq<char>) -> Option<(Seq<char>, Seq<Seq<char>>)> {
    let id = unescape_text(identity_id_part(raw));
    if id.len() == 0 {
        None
    } else {
        Some((id, decode_roles(identity_roles_part(raw))))
    }
}

/// Unescaping an escaped text followed by more text.
pub proof fn lemma_unescape_escape_concat(s: Seq<char>, t: Seq<char>)
    ensures
        unescape_text(escape_text(s) + t) == s + unescape_text(t),
    decreases s.len(),
{
    if s.len() == 0 {
        assert(escape_text(s) + t =~= t);
        assert(s + unescape_text(t) =~= unescape_text(t));
    } else {
        let c = s[0];
        let rest = s.skip(1);
        let x = escape_text(rest) + t;
        let u = escape_text(s) + t;
        assert(u =~= id_esc(c) + x);
        lemma_unescape_escape_concat(rest, t);
        if c == '\\' || c == '\n' || c == '|' {
            assert(u[0] == '\\');
            assert(u.skip(2) =~= x);
            assert(unesc_char(u[1]) =~= seq![c]);
        } else {
            assert(u[0] == c);
            assert(u.skip(1) =~= x);
        }
        assert(s =~= seq![c] + rest);
        assert(seq![c] + (rest + unescape_text(t)) =~= s + unescape_text(t));
    }
}

/// Unescaping undoes escaping.
pub proof fn lemma_unescape_escape(s: Seq<char>)
    ensures
        unescape_text(escape_text(s)) == s,
{
    lemma_unescape_escape_concat(s, seq![]);
    assert(escape_text(s) + seq![] =~= escape_text(s));
    assert(s + Seq::<char>::empty() =~= s);
}

/// Escaped text holds no newline and is no shorter than the text.
pub proof fn lemma_escape_shape(s: Seq<char>)
    ensures
        forall|j: int| 0 <= j < escape_text(s).len() ==> escape_text(s)[j] != '\n',
        escape_text(s).len() >= s.len(),
        escape_text(s).len() == 0 ==> s.len() == 0,
    decreases s.len(),
{
    if s.len() > 0 {
        lemma_escape_shape(s.skip(1));
        let e = escape_text(s);
        let h = id_esc(s[0]);
        let r = escape_text(s.skip(1));
        assert(e == h + r);
        assert forall|j: int| 0 <= j < e.len() implies e[j] != '\n' by {
            if j < h.len() {
                assert(e[j] == h[j]);
            } else {
                assert(e[j] == r[j - h.len()]);
            }
        }
    }
}

pub proof fn lemma_split_escaped_nonempty(s: Seq<char>, sep: char)
    ensures
        split_escaped(s, sep).len() >= 1,
    decreases s.len(),
{
    if s.len() > 1 && s[0] == '\\' {
        lemma_split_escaped_nonempty(s.skip(2), sep);
    } else if s.len() > 0 && s[0] != '\\' {
        lemma_split_escaped_nonempty(s.skip(1), sep);
    }
}

pub proof fn lemma_prepend_twice(a: Seq<char>, b: Seq<char>, parts: Seq<Seq<char>>)
    requires
        parts.len() >= 1,
    ensures
        prepend_first(a, prepend_first(b, parts)) == prepend_first(a + b, parts),
{
    assert(a + (b + parts[0]) =~= (a + b) + parts[0]);
    assert(prepend_first(a, prepend_first(b, parts)) =~= prepend_first(a + b, parts));
}

/// Splitting escaped text followed by more text: the escaped text has no
/// unescaped `|`, so it starts the first part.
pub proof fn lemma_split_after_escaped(r: Seq<char>, w: Seq<char>)
    ensures
        split_escaped(escape_text(r) + w, '|') == prepend_first(escape_text(r), split_escaped(w, '|')),
    decreases r.len(),
{
    lemma_split_escaped_nonempty(w, '|');
    if r.len() == 0 {
        assert(escape_text(r) + w =~= w);
        let p = split_escaped(w, '|');
        assert(prepend_first(escape_text(r), p) =~= p);
    } else {
        let c = r[0];
        let rest = r.skip(1);
        let x = escape_text(rest) + w;
        let u = escape_text(r) + w;
        let h = id_esc(c);
        assert(u =~= h + x);
        lemma_split_after_escaped(rest, w);
        lemma_split_escaped_nonempty(x, '|');
        if c == '\\' || c == '\n' || c == '|' {
            assert(u[0] == '\\');
            assert(u.take(2) =~= h);
            assert(u.skip(2) =~= x);
        } else {
            assert(u[0] == c);
            assert(u.skip(1) =~= x);
            assert(h =~= seq![c]);
        }
        lemma_prepend_twice(h, escape_text(rest), split_escaped(w, '|'));
        assert(escape_text(r) == h + escape_text(rest));
    }
}

/// Splitting joined escaped roles gives the escaped roles back.
pub proof fn lemma_split_join(roles: Seq<Seq<char>>)
    requires
        roles.len() >= 1,
    ensures
        split_escaped(join_with(escape_roles(roles), '|'), '|') == escape_roles(roles),
    decreases roles.len(),
{
    let es = escape_roles(roles);
    let e0 = escape_text(roles[0]);
    if roles.len() == 1 {
        assert(join_with(es, '|') == e0);
        lemma_split_after_escaped(roles[0], seq![]);
        assert(e0 + Seq::<char>::empty() =~= e0);
        assert(prepend_first(e0, seq![seq![]]) =~= seq![e0]);
        assert(es =~= seq![e0]);
    } else {
        let tail = roles.skip(1);
        assert(es.skip(1) =~= escape_roles(tail));
        lemma_split_join(tail);
        let j = join_with(escape_roles(tail), '|');
        assert(join_with(es, '|') == e0 + seq!['|'] + j);
        assert(e0 + seq!['|'] + j =~= e0 + (seq!['|'] + j));
        lemma_split_after_escaped(roles[0], seq!['|'] + j);
        let w = seq!['|'] + j;
        assert(w.skip(1) =~= j);
        assert(split_escaped(w, '|') == seq![seq![]] + escape_roles(tail));
        assert(prepend_first(e0, seq![seq![]] + escape_roles(tail)) =~= es);
    }
}

pub proof fn lemma_unescape_roles(roles: Seq<Seq<char>>)
    ensures
        unescape_parts(escape_roles(roles)) == roles,
{
    assert forall|i: int| 0 <= i < roles.len() implies #[trigger] unescape_parts(
        escape_roles(roles),
    )[i] == roles[i] by {
        lemma_unescape_escape(roles[i]);
    }
    assert(unescape_parts(escape_roles(roles)) =~= roles);
}

/// Joined escaped roles are empty only for no roles or one empty role.
proof fn lemma_join_empty(roles: Seq<Seq<char>>)
    requires
        join_with(escape_roles(roles), '|').len() == 0,
    ensures
        roles.len() == 0 || (roles.len() == 1 && roles[0].len() == 0),
{
    if roles.len() == 1 {
        lemma_escape_shape(roles[0]);
    } else if roles.len() > 1 {
        let es = escape_roles(roles);
        assert(join_with(es, '|').len() == es[0].len() + 1 + join_with(es.skip(1), '|').len());
    }
}

/// Decoding the stored text of an identity gives back the id and its
/// non-empty roles; an empty id is never read back.
pub proof fn lemma_decode_encode_identity(id: Seq<char>, roles: Seq<Seq<char>>)
    ensures
        decode_identity_text(encode_identity_text(id, roles)) == (if id.len() == 0 {
            None
        } else {
            Some((id, keep_nonempty(roles)))
        }),
{
    let e = escape_text(id);
    let j = join_with(escape_roles(roles), '|');
    let raw = encode_identity_text(id, roles);
    lemma_escape_shape(id);
    assert(raw =~= e + seq!['\n'] + j);
    assert(raw[e.len() as int] == '\n');
    assert forall|k: int| 0 <= k < e.len() implies raw[k] != '\n' by {
        assert(raw[k] == e[k]);
    }
    lemma_first_index_at(raw, '\n', e.len() as int);
    assert(raw.take(e.len() as int) =~= e);
    assert(raw.skip(e.len() as int + 1) =~= j);
    lemma_unescape_escape(id);
    assert(identity_id_part(raw) == e);
    assert(identity_roles_part(raw) == j);
    if id.len() > 0 {
        if j.len() == 0 {
            lemma_join_empty(roles);
            if roles.len() == 1 {
                assert(roles.drop_last().len() == 0);
                assert(keep_nonempty(roles.drop_last()) == Seq::<Seq<char>>::empty());
            }
            assert(keep_nonempty(roles) == Seq::<Seq<char>>::empty());
            assert(decode_roles(j) == Seq::<Seq<char>>::empty());
        } else {
            if roles.len() == 0 {
                assert(j.len() == 0);
            }
            lemma_split_join(roles);
            lemma_unescape_roles(roles);
            assert(decode_roles(j) == keep_nonempty(roles));
        }
    }
}

} // verus!
