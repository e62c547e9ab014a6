//! Text encoding of flash messages inside one session attribute.
//!
//! Each message is one line `kind|message`, with `\`, `|`, newline and
//! carriage return escaped; kinds appear in ascending order.

use vstd::prelude::*;

verus! {

/// Escape sequence for one character.
pub open spec fn esc(c: char) -> Seq<char> {
    if c == '\\' {
        seq!['\\', '\\']
    } else if c == '|' {
        seq!['\\', '|']
    } else if c == '\n' {
        seq!['\\', 'n']
    } else if c == '\r' {
        seq!['\\', 'r']
    } else {
        seq![c]
    }
}

/// Escaped form of `s`: every character replaced by its escape sequence.
pub open spec fn escape(s: Seq<char>) -> Seq<char>
    decreases s.len(),
{
    if s.len() == 0 {
        seq![]
    } else {
        esc(s[0]) + escape(s.skip(1))
    }
}

/// Character produced by the escape pair `\c`.
pub open spec fn unesc_pair(c: char) -> Seq<char> {
    if c == '\\' {
        seq!['\\']
    } else if c == '|' {
        seq!['|']
    } else if c == 'n' {
        seq!['\n']
    } else if c == 'r' {
        seq!['\r']
    } else {
        seq!['\\', c]
    }
}

/// Inverse of [`escape`]; unknown pairs and a trailing `\` are kept as written.
pub open spec fn unescape(s: Seq<char>) -> Seq<char>
    decreases s.len(),
{
    if s.len() == 0 {
        seq![]
    } else if s[0] != '\\' {
        seq![s[0]] + unescape(s.skip(1))
    } else if s.len() == 1 {
        seq!['\\']
    } else {
        unesc_pair(s[1]) + unescape(s.skip(2))
    }
}

/// Splits at the first `|` that is not part of an escape pair.
pub open spec fn split_once(s: Seq<char>) -> Option<(Seq<char>, Seq<char>)>
    decreases s.len(),
{
    if s.len() == 0 {
        None
    } else if s[0] == '\\' {
        if s.len() < 2 {
            None
        } else {
            match split_once(s.skip(2)) {
                Some(p) => Some((s.take(2) + p.0, p.1)),
                None => None,
            }
        }
    } else if s[0] == '|' {
        Some((seq![], s.skip(1)))
    } else {
        match split_once(s.skip(1)) {
            Some(p) => Some((seq![s[0]] + p.0, p.1)),
            None => None,
        }
    }
}

/// Segments of `s` between newlines (always at least one).
pub open spec fn split_nl(s: Seq<char>) -> Seq<Seq<char>>
    decreases s.len(),
{
    if s.len() == 0 {
        seq![seq![]]
    } else {
        let p = split_nl(s.drop_last());
        if s.last() == '\n' {
            p.push(seq![])
        } else {
            p.update(p.len() - 1, p.last().push(s.last()))
        }
    }
}

/// A line without its trailing carriage return.
pub open spec fn strip_cr(l: Seq<char>) -> Seq<char> {
    if l.len() > 0 && l.last() == '\r' {
        l.drop_last()
    } else {
        l
    }
}

/// Appends `msg` to the messages of `kind`.
pub open spec fn add_msg(
    m: Map<Seq<char>, Seq<Seq<char>>>,
    kind: Seq<char>,
    msg: Seq<char>,
) -> Map<Seq<char>, Seq<Seq<char>>> {
    m.insert(
        kind,
        if m.dom().contains(kind) {
            m[kind].push(msg)
        } else {
            seq![msg]
        },
    )
}

/// Effect of one line on the decoded messages: lines without an unescaped
/// `|`, and lines whose kind is empty, are skipped.
pub open spec fn process_line(
    m: Map<Seq<char>, Seq<Seq<char>>>,
    l: Seq<char>,
) -> Map<Seq<char>, Seq<Seq<char>>> {
    if l.len() == 0 {
        m
    } else {
        match split_once(l) {
            None => m,
            Some(p) => {
                let kind = unescape(p.0);
                if kind.len() == 0 {
                    m
                } else {
                    add_msg(m, kind, unescape(p.1))
                }
            },
        }
    }
}

/// Effect of complete (newline-terminated) lines.
pub open spec fn fold_lines(
    m: Map<Seq<char>, Seq<Seq<char>>>,
    ls: Seq<Seq<char>>,
) -> Map<Seq<char>, Seq<Seq<char>>>
    decreases ls.len(),
{
    if ls.len() == 0 {
        m
    } else {
        process_line(fold_lines(m, ls.drop_last()), strip_cr(ls.last()))
    }
}

/// Messages decoded from the stored text (what `str::lines` and the line
/// rules give): complete lines lose a trailing `\r`, the final unterminated
/// segment does not.
pub open spec fn decode_text(s: Seq<char>) -> Map<Seq<char>, Seq<Seq<char>>> {
    let segs = split_nl(s);
    process_line(fold_lines(Map::empty(), segs.drop_last()), segs.last())
}

/// One stored line.
pub open spec fn line_of(kind: Seq<char>, msg: Seq<char>) -> Seq<char> {
    escape(kind) + seq!['|'] + escape(msg)
}

/// Lines for every message of one kind, each followed by a newline.
pub open spec fn kind_text(kind: Seq<char>, msgs: Seq<Seq<char>>) -> Seq<char>
    decreases msgs.len(),
{
    if msgs.len() == 0 {
        seq![]
    } else {
        kind_text(kind, msgs.drop_last()) + line_of(kind, msgs.last()) + seq!['\n']
    }
}

/// Stored text for a list of `(kind, messages)` entries.
pub open spec fn encode_text(e: Seq<(Seq<char>, Seq<Seq<char>>)>) -> Seq<char>
    decreases e.len(),
{
    if e.len() == 0 {
        seq![]
    } else {
        encode_text(e.drop_last()) + kind_text(e.last().0, e.last().1)
    }
}

/// Lines (without newlines) for every message of one kind.
pub open spec fn kind_lines(kind: Seq<char>, msgs: Seq<Seq<char>>) -> Seq<Seq<char>>
    decreases msgs.len(),
{
    if msgs.len() == 0 {
        seq![]
    } else {
        kind_lines(kind, msgs.drop_last()).push(line_of(kind, msgs.last()))
    }
}

/// Lines for a list of entries.
pub open spec fn all_lines(e: Seq<(Seq<char>, Seq<Seq<char>>)>) -> Seq<Seq<char>>
    decreases e.len(),
{
    if e.len() == 0 {
        seq![]
    } else {
        all_lines(e.drop_last()) + kind_lines(e.last().0, e.last().1)
    }
}

/// Map of a list of entries (later entries win).
pub open spec fn entries_map(e: Seq<(Seq<char>, Seq<Seq<char>>)>) -> Map<
    Seq<char>,
    Seq<Seq<char>>,
>
    decreases e.len(),
{
    if e.len() == 0 {
        Map::empty()
    } else {
        entries_map(e.drop_last()).insert(e.last().0, e.last().1)
    }
}

/// Strict lexicographic order on character sequences (byte order of UTF-8
/// strings).
pub open spec fn lex_lt(a: Seq<char>, b: Seq<char>) -> bool
    decreases a.len(),
{
    if a.len() == 0 {
        b.len() > 0
    } else if b.len() == 0 {
        false
    } else if a[0] < b[0] {
        true
    } else if a[0] == b[0] {
        lex_lt(a.skip(1), b.skip(1))
    } else {
        false
    }
}

/// Entries as stored: kinds non-empty and strictly ascending, every kind
/// with at least one message.
pub open spec fn entries_wf(e: Seq<(Seq<char>, Seq<Seq<char>>)>) -> bool {
    &&& forall|i: int| 0 <= i < e.len() ==> #[trigger] e[i].0.len() > 0
    &&& forall|i: int| 0 <= i < e.len() ==> #[trigger] e[i].1.len() > 0
    &&& forall|i: int, j: int| 0 <= i < j < e.len() ==> lex_lt(#[trigger] e[i].0, #[trigger] e[j].0)
}

// ---------------------------------------------------------------- lemmas

pub proof fn lemma_lex_irrefl(a: Seq<char>)
    ensures
        !lex_lt(a, a),
    decreases a.len(),
{
    if a.len() > 0 {
        lemma_lex_irrefl(a.skip(1));
    }
}

pub proof fn lemma_lex_trans(a: Seq<char>, b: Seq<char>, c: Seq<char>)
    requires
        lex_lt(a, b),
        lex_lt(b, c),
    ensures
        lex_lt(a, c),
    decreases a.len(),
{
    if a.len() > 0 && b.len() > 0 && c.len() > 0 && a[0] == b[0] && b[0] == c[0] {
        lemma_lex_trans(a.skip(1), b.skip(1), c.skip(1));
    }
}

pub proof fn lemma_lex_total(a: Seq<char>, b: Seq<char>)
    requires
        a != b,
    ensures
        lex_lt(a, b) || lex_lt(b, a),
    decreases a.len(),
{
    if a.len() > 0 && b.len() > 0 && a[0] == b[0] {
        if a.skip(1) == b.skip(1) {
            assert(a =~= seq![a[0]] + a.skip(1));
            assert(b =~= seq![b[0]] + b.skip(1));
        }
        lemma_lex_total(a.skip(1), b.skip(1));
    } else if a.len() == 0 && b.len() == 0 {
        assert(a =~= b);
    }
}

pub proof fn lemma_lex_asym(a: Seq<char>, b: Seq<char>)
    requires
        lex_lt(a, b),
    ensures
        !lex_lt(b, a),
{
    if lex_lt(b, a) {
        lemma_lex_trans(a, b, a);
        lemma_lex_irrefl(a);
    }
}

proof fn lemma_esc_shape(c: char)
    ensures
        esc(c).len() == 1 ==> esc(c)[0] == c && c != '\\' && c != '|' && c != '\n' && c != '\r',
        esc(c).len() == 2 ==> esc(c)[0] == '\\' && unesc_pair(esc(c)[1]) == seq![c],
        esc(c).len() == 1 || esc(c).len() == 2,
        forall|i: int| 0 <= i < esc(c).len() ==> #[trigger] esc(c)[i] != '\n' && esc(c)[i] != '\r',
{
}

pub proof fn lemma_escape_concat(a: Seq<char>, b: Seq<char>)
    ensures
        escape(a + b) == escape(a) + escape(b),
    decreases a.len(),
{
    if a.len() == 0 {
        assert(a + b =~= b);
        assert(escape(a) + escape(b) =~= escape(b));
    } else {
        assert((a + b).skip(1) =~= a.skip(1) + b);
        lemma_escape_concat(a.skip(1), b);
        assert((a + b)[0] == a[0]);
        assert(escape(a + b) =~= esc(a[0]) + (escape(a.skip(1)) + escape(b)));
    }
}

pub proof fn lemma_escape_push(a: Seq<char>, c: char)
    ensures
        escape(a.push(c)) == escape(a) + esc(c),
{
    lemma_escape_concat(a, seq![c]);
    assert(a.push(c) =~= a + seq![c]);
    assert(seq![c].skip(1) =~= Seq::<char>::empty());
    assert(escape(seq![c].skip(1)) == Seq::<char>::empty());
    assert(seq![c][0] == c);
    assert(escape(seq![c]) =~= esc(c));
}

pub proof fn lemma_escape_no_line_breaks(s: Seq<char>)
    ensures
        forall|i: int|
            0 <= i < escape(s).len() ==> #[trigger] escape(s)[i] != '\n' && escape(s)[i] != '\r',
    decreases s.len(),
{
    if s.len() > 0 {
        lemma_escape_no_line_breaks(s.skip(1));
        lemma_esc_shape(s[0]);
        let e = escape(s);
        assert forall|i: int| 0 <= i < e.len() implies #[trigger] e[i] != '\n' && e[i] != '\r' by {
            if i < esc(s[0]).len() {
                assert(e[i] == esc(s[0])[i]);
            } else {
                assert(e[i] == escape(s.skip(1))[i - esc(s[0]).len()]);
            }
        }
    }
}

proof fn lemma_unescape_esc(c: char, t: Seq<char>)
    ensures
        unescape(esc(c) + t) == seq![c] + unescape(t),
{
    lemma_esc_shape(c);
    let s = esc(c) + t;
    if esc(c).len() == 1 {
        assert(s[0] == c);
        assert(s.skip(1) =~= t);
    } else {
        assert(s[0] == '\\');
        assert(s[1] == esc(c)[1]);
        assert(s.skip(2) =~= t);
    }
}

/// Unescaping undoes escaping.
pub proof fn lemma_unescape_escape(s: Seq<char>)
    ensures
        unescape(escape(s)) == s,
    decreases s.len(),
{
    if s.len() == 0 {
    } else {
        lemma_unescape_escape(s.skip(1));
        lemma_unescape_esc(s[0], escape(s.skip(1)));
        assert(s =~= seq![s[0]] + s.skip(1));
    }
}

/// An escaped kind followed by `|` splits exactly there.
pub proof fn lemma_split_escaped(k: Seq<char>, t: Seq<char>)
    ensures
        split_once(escape(k) + seq!['|'] + t) == Some((escape(k), t)),
    decreases k.len(),
{
    let s = escape(k) + seq!['|'] + t;
    if k.len() == 0 {
        assert(s =~= seq!['|'] + t);
        assert(s.skip(1) =~= t);
    } else {
        lemma_split_escaped(k.skip(1), t);
        lemma_esc_shape(k[0]);
        let rest = escape(k.skip(1)) + seq!['|'] + t;
        assert(s =~= esc(k[0]) + rest);
        if esc(k[0]).len() == 1 {
            assert(s[0] == k[0]);
            assert(s.skip(1) =~= rest);
            assert(seq![s[0]] + escape(k.skip(1)) =~= escape(k));
        } else {
            assert(s[0] == '\\');
            assert(s.skip(2) =~= rest);
            assert(s.take(2) =~= esc(k[0]));
            assert(s.take(2) + escape(k.skip(1)) =~= escape(k));
        }
    }
}

pub proof fn lemma_split_nl_nonempty(s: Seq<char>)
    ensures
        split_nl(s).len() >= 1,
    decreases s.len(),
{
    if s.len() > 0 {
        lemma_split_nl_nonempty(s.drop_last());
    }
}

/// Appending text without newlines extends the last segment.
pub proof fn lemma_split_nl_append(s: Seq<char>, t: Seq<char>)
    requires
        forall|i: int| 0 <= i < t.len() ==> #[trigger] t[i] != '\n',
    ensures
        split_nl(s + t) == split_nl(s).update(
            split_nl(s).len() - 1,
            split_nl(s).last() + t,
        ),
    decreases t.len(),
{
    lemma_split_nl_nonempty(s);
    let p = split_nl(s);
    if t.len() == 0 {
        assert(s + t =~= s);
        assert(p.update(p.len() - 1, p.last() + t) =~= p);
    } else {
        let t2 = t.drop_last();
        assert forall|i: int| 0 <= i < t2.len() implies #[trigger] t2[i] != '\n' by {
            assert(t2[i] == t[i]);
        }
        lemma_split_nl_append(s, t2);
        assert((s + t).drop_last() =~= s + t2);
        assert((s + t).last() == t.last());
        let q = split_nl(s + t2);
        lemma_split_nl_nonempty(s + t2);
        assert(q.last() == p.last() + t2);
        assert(q.len() == p.len());
        assert((p.last() + t2).push(t.last()) =~= p.last() + t);
        assert(q.update(q.len() - 1, q.last().push(t.last())) =~= p.update(
            p.len() - 1,
            p.last() + t,
        ));
    }
}

proof fn lemma_line_no_breaks(kind: Seq<char>, msg: Seq<char>)
    ensures
        forall|i: int|
            0 <= i < line_of(kind, msg).len() ==> #[trigger] line_of(kind, msg)[i] != '\n'
                && line_of(kind, msg)[i] != '\r',
        line_of(kind, msg).len() > 0,
{
    lemma_escape_no_line_breaks(kind);
    lemma_escape_no_line_breaks(msg);
    let l = line_of(kind, msg);
    let a = escape(kind);
    let b = escape(msg);
    assert forall|i: int| 0 <= i < l.len() implies #[trigger] l[i] != '\n' && l[i] != '\r' by {
        if i < a.len() {
            assert(l[i] == a[i]);
        } else if i == a.len() {
            assert(l[i] == '|');
        } else {
            assert(l[i] == b[i - a.len() - 1]);
        }
    }
}

/// The segments of the stored text are its lines, then an empty tail.
pub proof fn lemma_split_encoded(e: Seq<(Seq<char>, Seq<Seq<char>>)>)
    ensures
        split_nl(encode_text(e)) == all_lines(e).push(seq![]),
    decreases e.len(),
{
    if e.len() == 0 {
    } else {
        lemma_split_encoded(e.drop_last());
        lemma_split_kind(
            encode_text(e.drop_last()),
            all_lines(e.drop_last()),
            e.last().0,
            e.last().1,
        );
        assert(all_lines(e.drop_last()) + kind_lines(e.last().0, e.last().1) == all_lines(e));
    }
}

proof fn lemma_split_kind(
    s: Seq<char>,
    ls: Seq<Seq<char>>,
    kind: Seq<char>,
    msgs: Seq<Seq<char>>,
)
    requires
        split_nl(s) == ls.push(seq![]),
    ensures
        split_nl(s + kind_text(kind, msgs)) == (ls + kind_lines(kind, msgs)).push(seq![]),
    decreases msgs.len(),
{
    if msgs.len() == 0 {
        assert(s + kind_text(kind, msgs) =~= s);
        assert(ls + kind_lines(kind, msgs) =~= ls);
    } else {
        let m2 = msgs.drop_last();
        lemma_split_kind(s, ls, kind, m2);
        let pre = s + kind_text(kind, m2);
        let l = line_of(kind, msgs.last());
        lemma_line_no_breaks(kind, msgs.last());
        lemma_split_nl_append(pre, l);
        let q = (ls + kind_lines(kind, m2)).push(seq![]);
        assert(q.last() + l =~= l);
        assert(s + kind_text(kind, msgs) =~= (pre + l).push('\n'));
        assert((pre + l).push('\n').drop_last() =~= pre + l);
        assert(split_nl((pre + l).push('\n')) == split_nl(pre + l).push(seq![]));
        assert(q.update(q.len() - 1, l) =~= (ls + kind_lines(kind, m2)).push(l));
        assert((ls + kind_lines(kind, m2)).push(l) =~= ls + kind_lines(kind, msgs));
    }
}

pub proof fn lemma_fold_concat(
    m: Map<Seq<char>, Seq<Seq<char>>>,
    a: Seq<Seq<char>>,
    b: Seq<Seq<char>>,
)
    ensures
        fold_lines(m, a + b) == fold_lines(fold_lines(m, a), b),
    decreases b.len(),
{
    if b.len() == 0 {
        assert(a + b =~= a);
    } else {
        lemma_fold_concat(m, a, b.drop_last());
        assert((a + b).drop_last() =~= a + b.drop_last());
        assert((a + b).last() == b.last());
    }
}

proof fn lemma_process_line_of(m: Map<Seq<char>, Seq<Seq<char>>>, kind: Seq<char>, msg: Seq<char>)
    requires
        kind.len() > 0,
    ensures
        process_line(m, strip_cr(line_of(kind, msg))) == add_msg(m, kind, msg),
{
    let l = line_of(kind, msg);
    lemma_line_no_breaks(kind, msg);
    assert(l[l.len() - 1] != '\r');
    assert(strip_cr(l) == l);
    lemma_split_escaped(kind, escape(msg));
    lemma_unescape_escape(kind);
    lemma_unescape_escape(msg);
}

proof fn lemma_fold_kind(
    m: Map<Seq<char>, Seq<Seq<char>>>,
    kind: Seq<char>,
    msgs: Seq<Seq<char>>,
)
    requires
        kind.len() > 0,
        !m.dom().contains(kind),
    ensures
        fold_lines(m, kind_lines(kind, msgs)) == if msgs.len() == 0 {
            m
        } else {
            m.insert(kind, msgs)
        },
    decreases msgs.len(),
{
    if msgs.len() > 0 {
        let m2 = msgs.drop_last();
        lemma_fold_kind(m, kind, m2);
        let ls = kind_lines(kind, msgs);
        assert(ls.drop_last() == kind_lines(kind, m2));
        lemma_process_line_of(fold_lines(m, kind_lines(kind, m2)), kind, msgs.last());
        if m2.len() == 0 {
            assert(msgs =~= seq![msgs.last()]);
            assert(add_msg(m, kind, msgs.last()) =~= m.insert(kind, msgs));
        } else {
            assert(m2.push(msgs.last()) =~= msgs);
            assert(add_msg(m.insert(kind, m2), kind, msgs.last()) =~= m.insert(kind, msgs));
        }
    }
}

pub proof fn lemma_entries_map_dom(e: Seq<(Seq<char>, Seq<Seq<char>>)>, k: Seq<char>)
    ensures
        entries_map(e).dom().contains(k) <==> exists|i: int| 0 <= i < e.len() && e[i].0 == k,
    decreases e.len(),
{
    if e.len() > 0 {
        lemma_entries_map_dom(e.drop_last(), k);
        if exists|i: int| 0 <= i < e.len() && e[i].0 == k {
            let i = choose|i: int| 0 <= i < e.len() && e[i].0 == k;
            if i < e.len() - 1 {
                assert(e.drop_last()[i].0 == k);
            }
        }
        if exists|i: int| 0 <= i < e.drop_last().len() && e.drop_last()[i].0 == k {
            let i = choose|i: int| 0 <= i < e.drop_last().len() && e.drop_last()[i].0 == k;
            assert(e[i].0 == k);
        }
    }
}

pub proof fn lemma_entries_map_value(e: Seq<(Seq<char>, Seq<Seq<char>>)>, i: int)
    requires
        0 <= i < e.len(),
        forall|j: int| 0 <= j < e.len() && j != i ==> e[j].0 != e[i].0,
    ensures
        entries_map(e).dom().contains(e[i].0),
        entries_map(e)[e[i].0] == e[i].1,
    decreases e.len(),
{
    if i < e.len() - 1 {
        assert forall|j: int| 0 <= j < e.drop_last().len() && j != i implies e.drop_last()[j].0
            != e.drop_last()[i].0 by {
            assert(e.drop_last()[j] == e[j]);
        }
        lemma_entries_map_value(e.drop_last(), i);
        assert(e.last().0 != e[i].0);
    }
}

pub proof fn lemma_wf_unique(e: Seq<(Seq<char>, Seq<Seq<char>>)>, i: int, j: int)
    requires
        entries_wf(e),
        0 <= i < e.len(),
        0 <= j < e.len(),
        i != j,
    ensures
        e[i].0 != e[j].0,
{
    if i < j {
        assert(lex_lt(e[i].0, e[j].0));
        lemma_lex_irrefl(e[i].0);
    } else {
        assert(lex_lt(e[j].0, e[i].0));
        lemma_lex_irrefl(e[j].0);
    }
}

/// Decoding the stored text of well-formed entries gives back their map.
pub proof fn lemma_decode_encode(e: Seq<(Seq<char>, Seq<Seq<char>>)>)
    requires
        entries_wf(e),
    ensures
        decode_text(encode_text(e)) == entries_map(e),
{
    lemma_split_encoded(e);
    let segs = split_nl(encode_text(e));
    assert(segs.drop_last() =~= all_lines(e));
    lemma_fold_entries(e);
}

proof fn lemma_fold_entries(e: Seq<(Seq<char>, Seq<Seq<char>>)>)
    requires
        entries_wf(e),
    ensures
        fold_lines(Map::empty(), all_lines(e)) == entries_map(e),
    decreases e.len(),
{
    if e.len() > 0 {
        let d = e.drop_last();
        assert(entries_wf(d)) by {
            assert forall|i: int, j: int| 0 <= i < j < d.len() implies lex_lt(
                #[trigger] d[i].0,
                #[trigger] d[j].0,
            ) by {
                assert(d[i] == e[i] && d[j] == e[j]);
            }
            assert forall|i: int| 0 <= i < d.len() implies #[trigger] d[i].0.len() > 0 by {
                assert(d[i] == e[i]);
            }
            assert forall|i: int| 0 <= i < d.len() implies #[trigger] d[i].1.len() > 0 by {
                assert(d[i] == e[i]);
            }
        }
        lemma_fold_entries(d);
        lemma_fold_concat(Map::empty(), all_lines(d), kind_lines(e.last().0, e.last().1));
        lemma_entries_map_dom(d, e.last().0);
        if entries_map(d).dom().contains(e.last().0) {
            let i = choose|i: int| 0 <= i < d.len() && d[i].0 == e.last().0;
            lemma_wf_unique(e, i, e.len() - 1);
        }
        assert(e[e.len() - 1].0.len() > 0);
        assert(e[e.len() - 1].1.len() > 0);
        lemma_fold_kind(entries_map(d), e.last().0, e.last().1);
    }
}


/// Keys of `e` are pairwise distinct.
pub open spec fn keys_distinct(e: Seq<(Seq<char>, Seq<Seq<char>>)>) -> bool {
    forall|i: int, j: int| 0 <= i < e.len() && 0 <= j < e.len() && i != j ==> e[i].0 != e[j].0
}

pub proof fn lemma_wf_distinct(e: Seq<(Seq<char>, Seq<Seq<char>>)>)
    requires
        entries_wf(e),
    ensures
        keys_distinct(e),
{
    assert forall|i: int, j: int| 0 <= i < e.len() && 0 <= j < e.len() && i != j implies e[i].0
        != e[j].0 by {
        lemma_wf_unique(e, i, j);
    }
}

/// Replacing the messages of an existing entry.
pub proof fn lemma_entries_update(e: Seq<(Seq<char>, Seq<Seq<char>>)>, i: int, v: Seq<Seq<char>>)
    requires
        0 <= i < e.len(),
        keys_distinct(e),
    ensures
        entries_map(e.update(i, (e[i].0, v))) == entries_map(e).insert(e[i].0, v),
    decreases e.len(),
{
    let e2 = e.update(i, (e[i].0, v));
    if i == e.len() - 1 {
        assert(e2.drop_last() =~= e.drop_last());
        assert(entries_map(e2) =~= entries_map(e).insert(e[i].0, v));
    } else {
        let d = e.drop_last();
        assert(keys_distinct(d)) by {
            assert forall|a: int, b: int| 0 <= a < d.len() && 0 <= b < d.len() && a != b implies d[a].0
                != d[b].0 by {
                assert(d[a] == e[a] && d[b] == e[b]);
            }
        }
        lemma_entries_update(d, i, v);
        assert(e2.drop_last() =~= d.update(i, (d[i].0, v)));
        assert(e.last().0 != e[i].0);
        assert(entries_map(e2) =~= entries_map(e).insert(e[i].0, v));
    }
}

/// Inserting an entry for a new key, anywhere.
pub proof fn lemma_entries_insert(
    e: Seq<(Seq<char>, Seq<Seq<char>>)>,
    i: int,
    k: Seq<char>,
    v: Seq<Seq<char>>,
)
    requires
        0 <= i <= e.len(),
        forall|j: int| 0 <= j < e.len() ==> e[j].0 != k,
    ensures
        entries_map(e.insert(i, (k, v))) == entries_map(e).insert(k, v),
    decreases e.len(),
{
    let e2 = e.insert(i, (k, v));
    if i == e.len() {
        assert(e2.drop_last() =~= e);
        assert(e2.last() == (k, v));
    } else {
        let d = e.drop_last();
        assert forall|j: int| 0 <= j < d.len() implies d[j].0 != k by {
            assert(d[j] == e[j]);
        }
        lemma_entries_insert(d, i, k, v);
        assert(e2.drop_last() =~= d.insert(i, (k, v)));
        assert(e2.last() == e.last());
        assert(e.last().0 != k);
        assert(entries_map(e2) =~= entries_map(e).insert(k, v));
    }
}

/// Removing the entry of a key.
pub proof fn lemma_entries_remove(e: Seq<(Seq<char>, Seq<Seq<char>>)>, i: int)
    requires
        0 <= i < e.len(),
        keys_distinct(e),
    ensures
        entries_map(e.remove(i)) == entries_map(e).remove(e[i].0),
    decreases e.len(),
{
    let e2 = e.remove(i);
    let d = e.drop_last();
    if i == e.len() - 1 {
        assert(e2 =~= d);
        lemma_entries_map_dom(d, e[i].0);
        if entries_map(d).dom().contains(e[i].0) {
            let j = choose|j: int| 0 <= j < d.len() && d[j].0 == e[i].0;
            assert(e[j].0 == e[i].0);
        }
        assert(entries_map(e2) =~= entries_map(e).remove(e[i].0));
    } else {
        assert(keys_distinct(d)) by {
            assert forall|a: int, b: int| 0 <= a < d.len() && 0 <= b < d.len() && a != b implies d[a].0
                != d[b].0 by {
                assert(d[a] == e[a] && d[b] == e[b]);
            }
        }
        lemma_entries_remove(d, i);
        assert(e2.drop_last() =~= d.remove(i));
        assert(e2.last() == e.last());
        assert(e.last().0 != e[i].0);
        assert(entries_map(e2) =~= entries_map(e).remove(e[i].0));
    }
}

/// A key absent from every entry is absent from the map.
pub proof fn lemma_entries_absent(e: Seq<(Seq<char>, Seq<Seq<char>>)>, k: Seq<char>)
    requires
        forall|j: int| 0 <= j < e.len() ==> e[j].0 != k,
    ensures
        !entries_map(e).dom().contains(k),
{
    lemma_entries_map_dom(e, k);
}

pub proof fn lemma_entries_empty(e: Seq<(Seq<char>, Seq<Seq<char>>)>)
    ensures
        (entries_map(e) == Map::<Seq<char>, Seq<Seq<char>>>::empty()) <==> e.len() == 0,
{
    if e.len() > 0 {
        lemma_entries_map_dom(e, e[0].0);
        assert(entries_map(e).dom().contains(e[0].0));
    } else {
        assert(entries_map(e) =~= Map::<Seq<char>, Seq<Seq<char>>>::empty());
    }
}

} // verus!
