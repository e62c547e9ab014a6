//! Flash bag: one-shot messages stored inside a [`Session`].

use vstd::prelude::*;

use crate::session::flash_codec::{
    add_msg, decode_text, encode_text, entries_map, entries_wf, esc, escape as escape_spec,
    fold_lines, kind_text, lemma_decode_encode, lemma_entries_absent, lemma_entries_empty,
    lemma_entries_insert, lemma_entries_map_value, lemma_entries_remove, lemma_entries_update,
    lemma_escape_push, lemma_lex_irrefl, lemma_lex_total, lemma_lex_trans, lemma_wf_distinct,
    keys_distinct, lex_lt, line_of, process_line, split_nl, split_once, strip_cr, unesc_pair,
    unescape as unescape_spec,
};
use crate::session::session::Session;
use crate::text::{chars_of, clone_strings, push_chars, string_of, strings_view};

verus! {

/// Session attribute key for the encoded flash messages.
pub const FLASH_SESSION_KEY: &'static str = "_serenade.flashes";

/// Flash messages of a session's attributes.
pub open spec fn flash_of(attrs: Map<Seq<char>, Seq<char>>) -> Map<Seq<char>, Seq<Seq<char>>> {
    if attrs.dom().contains(FLASH_SESSION_KEY@) {
        decode_text(attrs[FLASH_SESSION_KEY@])
    } else {
        Map::empty()
    }
}

/// View of flash entries.
pub open spec fn flash_entries_view(v: Seq<(String, Vec<String>)>) -> Seq<
    (Seq<char>, Seq<Seq<char>>),
> {
    v.map_values(|p: (String, Vec<String>)| (p.0@, strings_view(p.1@)))
}

/// Messages by kind, kinds in ascending order.
#[derive(Debug)]
pub struct FlashMap {
    entries: Vec<(String, Vec<String>)>,
}

impl View for FlashMap {
    type V = Map<Seq<char>, Seq<Seq<char>>>;

    closed spec fn view(&self) -> Map<Seq<char>, Seq<Seq<char>>> {
        entries_map(self.entries_view())
    }
}

/// Strict lexicographic comparison.
fn lex_less(a: &[char], b: &[char]) -> (r: bool)
    ensures
        r == lex_lt(a@, b@),
{
    let mut i: usize = 0;
    assert(a@.skip(0) =~= a@ && b@.skip(0) =~= b@);
    while i < a.len() && i < b.len() && a[i] == b[i]
        invariant
            i <= a.len(),
            i <= b.len(),
            lex_lt(a@, b@) == lex_lt(a@.skip(i as int), b@.skip(i as int)),
        decreases a.len() - i,
    {
        assert(a@.skip(i as int).skip(1) =~= a@.skip(i as int + 1));
        assert(b@.skip(i as int).skip(1) =~= b@.skip(i as int + 1));
        i = i + 1;
    }
    if i == a.len() {
        i < b.len()
    } else if i == b.len() {
        false
    } else {
        a[i] < b[i]
    }
}

impl FlashMap {
    #[verifier::type_invariant]
    closed spec fn inv(self) -> bool {
        entries_wf(self.entries_view())
    }

    /// Entries, each pair taken by its view.
    pub closed spec fn entries_view(&self) -> Seq<(Seq<char>, Seq<Seq<char>>)> {
        flash_entries_view(self.entries@)
    }

    /// No messages.
    pub fn new() -> (m: FlashMap)
        ensures
            m@ == Map::<Seq<char>, Seq<Seq<char>>>::empty(),
            m.entries_view().len() == 0,
    {
        let m = FlashMap { entries: Vec::new() };
        assert(m.entries_view() =~= Seq::empty());
        m
    }

    fn find(&self, kind: &String) -> (r: Option<usize>)
        ensures
            match r {
                Some(i) => i < self.entries.len() && self.entries_view()[i as int].0 == kind@,
                None => forall|j: int| 0 <= j < self.entries.len() ==> self.entries_view()[j].0 != kind@,
            },
            r.is_some() == self@.dom().contains(kind@),
            match r {
                Some(i) => self@[kind@] == self.entries_view()[i as int].1,
                None => true,
            },
    {
        proof {
            use_type_invariant(self);
            lemma_wf_distinct(self.entries_view());
        }
        let ghost ev = self.entries_view();
        let mut i: usize = 0;
        while i < self.entries.len()
            invariant
                i <= self.entries.len(),
                ev == self.entries_view(),
                ev.len() == self.entries.len(),
                keys_distinct(ev),
                forall|j: int| 0 <= j < i ==> ev[j].0 != kind@,
            decreases self.entries.len() - i,
        {
            assert(ev[i as int].0 == self.entries@[i as int].0@);
            if self.entries[i].0 == *kind {
                proof {
                    lemma_entries_map_value(ev, i as int);
                }
                return Some(i);
            }
            i = i + 1;
        }
        proof {
            lemma_entries_absent(ev, kind@);
        }
        None
    }

    /// Messages stored under `kind`.
    pub fn get(&self, kind: &str) -> (r: Option<&Vec<String>>)
        ensures
            match r {
                Some(v) => self@.dom().contains(kind@) && self@[kind@] == strings_view(v@),
                None => !self@.dom().contains(kind@),
            },
    {
        let k = kind.to_owned();
        match self.find(&k) {
            Some(i) => Some(&self.entries[i].1),
            None => None,
        }
    }

    /// Whether any message is stored under `kind`.
    pub fn contains_key(&self, kind: &str) -> (r: bool)
        ensures
            r == self@.dom().contains(kind@),
    {
        let k = kind.to_owned();
        self.find(&k).is_some()
    }

    /// Whether no message is stored.
    pub fn is_empty(&self) -> (r: bool)
        ensures
            r == (self@ == Map::<Seq<char>, Seq<Seq<char>>>::empty()),
    {
        proof {
            lemma_entries_empty(self.entries_view());
        }
        self.entries.len() == 0
    }

    /// Number of kinds with messages.
    pub fn len(&self) -> (r: usize)
        ensures
            r == self@.dom().len(),
    {
        proof {
            use_type_invariant(self);
            lemma_wf_distinct(self.entries_view());
            lemma_entries_len(self.entries_view());
        }
        self.entries.len()
    }

    /// Appends `msg` under the non-empty `kind`.
    fn with_message(self, kind: String, msg: String) -> (m: FlashMap)
        requires
            kind@.len() > 0,
        ensures
            m@ == add_msg(self@, kind@, msg@),
    {
        proof {
            use_type_invariant(&self);
            lemma_wf_distinct(self.entries_view());
        }
        let ghost ev = self.entries_view();
        let kc = chars_of(kind.as_str());
        let mut i: usize = 0;
        while i < self.entries.len() && lex_less(&chars_of(self.entries[i].0.as_str()), &kc)
            invariant
                i <= self.entries.len(),
                ev == self.entries_view(),
                ev.len() == self.entries.len(),
                kc@ == kind@,
                keys_distinct(ev),
                entries_wf(ev),
                forall|j: int| 0 <= j < i ==> lex_lt(#[trigger] ev[j].0, kind@),
            decreases self.entries.len() - i,
        {
            assert(ev[i as int].0 == self.entries@[i as int].0@);
            i = i + 1;
        }
        let FlashMap { entries } = self;
        let mut entries = entries;
        if i < entries.len() && entries[i].0 == kind {
            let (k, mut msgs) = entries.remove(i);
            let ghost old_msgs = strings_view(msgs@);
            let ghost mv = msg@;
            msgs.push(msg);
            assert(strings_view(msgs@) =~= old_msgs.push(mv));
            entries.insert(i, (k, msgs));
            proof {
                assert(flash_entries_view(entries@) =~= ev.update(
                    i as int,
                    (ev[i as int].0, old_msgs.push(mv)),
                ));
                lemma_entries_map_value(ev, i as int);
                lemma_entries_update(ev, i as int, old_msgs.push(mv));
                let e2 = flash_entries_view(entries@);
                assert forall|a: int, b: int| 0 <= a < b < e2.len() implies lex_lt(
                    #[trigger] e2[a].0,
                    #[trigger] e2[b].0,
                ) by {
                    assert(e2[a].0 == ev[a].0 && e2[b].0 == ev[b].0);
                }
                assert forall|a: int| 0 <= a < e2.len() implies #[trigger] e2[a].0.len() > 0 by {
                    assert(e2[a].0 == ev[a].0);
                }
                assert forall|a: int| 0 <= a < e2.len() implies #[trigger] e2[a].1.len() > 0 by {
                    if a != i {
                        assert(e2[a].1 == ev[a].1);
                    }
                }
            }
            FlashMap { entries }
        } else {
            proof {
                if i < entries.len() {
                    assert(ev[i as int].0 == entries@[i as int].0@);
                    assert(ev[i as int].0 != kind@);
                    assert(!lex_lt(ev[i as int].0, kind@));
                    lemma_lex_total(ev[i as int].0, kind@);
                }
                assert forall|j: int| 0 <= j < ev.len() implies ev[j].0 != kind@ by {
                    if j < i {
                        lemma_lex_irrefl(kind@);
                    } else {
                        if j > i {
                            assert(lex_lt(ev[i as int].0, ev[j].0));
                            lemma_lex_trans(kind@, ev[i as int].0, ev[j].0);
                        }
                        lemma_lex_irrefl(kind@);
                    }
                }
            }
            proof {
                lemma_entries_absent(ev, kind@);
            }
            let ghost kv = kind@;
            let ghost mv = msg@;
            let mut msgs: Vec<String> = Vec::new();
            msgs.push(msg);
            assert(strings_view(msgs@) =~= seq![mv]);
            entries.insert(i, (kind, msgs));
            proof {
                let e2 = flash_entries_view(entries@);
                assert(e2 =~= ev.insert(i as int, (kv, seq![mv])));
                lemma_entries_insert(ev, i as int, kv, seq![mv]);
                assert forall|a: int, b: int| 0 <= a < b < e2.len() implies lex_lt(
                    #[trigger] e2[a].0,
                    #[trigger] e2[b].0,
                ) by {
                    if b < i {
                        assert(e2[a] == ev[a] && e2[b] == ev[b]);
                    } else if b == i {
                        assert(e2[a] == ev[a]);
                    } else if a < i {
                        assert(e2[a] == ev[a] && e2[b] == ev[b - 1]);
                        assert(lex_lt(ev[a].0, kv));
                        if b - 1 > i {
                            assert(lex_lt(ev[i as int].0, ev[b - 1].0));
                            lemma_lex_trans(kv, ev[i as int].0, ev[b - 1].0);
                        }
                        lemma_lex_trans(ev[a].0, kv, ev[b - 1].0);
                    } else if a == i {
                        assert(e2[b] == ev[b - 1]);
                        if b - 1 > i {
                            assert(lex_lt(ev[i as int].0, ev[b - 1].0));
                            lemma_lex_trans(kv, ev[i as int].0, ev[b - 1].0);
                        }
                    } else {
                        assert(e2[a] == ev[a - 1] && e2[b] == ev[b - 1]);
                    }
                }
                assert forall|a: int| 0 <= a < e2.len() implies #[trigger] e2[a].0.len() > 0
                    && e2[a].1.len() > 0 by {
                    if a < i {
                        assert(e2[a] == ev[a]);
                    } else if a > i {
                        assert(e2[a] == ev[a - 1]);
                    }
                }
            }
            FlashMap { entries }
        }
    }

    /// Removes `kind`, returning its messages.
    fn without(self, kind: &str) -> (r: (FlashMap, Option<Vec<String>>))
        ensures
            r.0@ == self@.remove(kind@),
            match r.1 {
                Some(v) => self@.dom().contains(kind@) && self@[kind@] == strings_view(v@),
                None => !self@.dom().contains(kind@),
            },
    {
        proof {
            use_type_invariant(&self);
            lemma_wf_distinct(self.entries_view());
        }
        let ghost ev = self.entries_view();
        let k = kind.to_owned();
        match self.find(&k) {
            Some(i) => {
                let FlashMap { entries } = self;
                let mut entries = entries;
                let (_, msgs) = entries.remove(i);
                proof {
                    let e2 = flash_entries_view(entries@);
                    assert(e2 =~= ev.remove(i as int));
                    lemma_entries_remove(ev, i as int);
                    assert forall|a: int, b: int| 0 <= a < b < e2.len() implies lex_lt(
                        #[trigger] e2[a].0,
                        #[trigger] e2[b].0,
                    ) by {
                        if b < i {
                            assert(e2[a] == ev[a] && e2[b] == ev[b]);
                        } else if a < i {
                            assert(e2[a] == ev[a] && e2[b] == ev[b + 1]);
                        } else {
                            assert(e2[a] == ev[a + 1] && e2[b] == ev[b + 1]);
                        }
                    }
                    assert forall|a: int| 0 <= a < e2.len() implies #[trigger] e2[a].0.len() > 0
                        && e2[a].1.len() > 0 by {
                        if a < i {
                            assert(e2[a] == ev[a]);
                        } else {
                            assert(e2[a] == ev[a + 1]);
                        }
                    }
                }
                (FlashMap { entries }, Some(msgs))
            },
            None => {
                assert(self@.remove(kind@) =~= self@);
                (self, None)
            },
        }
    }
}

proof fn lemma_entries_len(e: Seq<(Seq<char>, Seq<Seq<char>>)>)
    requires
        keys_distinct(e),
    ensures
        entries_map(e).dom().len() == e.len(),
        entries_map(e).dom().finite(),
    decreases e.len(),
{
    if e.len() > 0 {
        let d = e.drop_last();
        assert(keys_distinct(d)) by {
            assert forall|a: int, b: int| 0 <= a < d.len() && 0 <= b < d.len() && a != b implies d[a].0
                != d[b].0 by {
                assert(d[a] == e[a] && d[b] == e[b]);
            }
        }
        lemma_entries_len(d);
        assert forall|j: int| 0 <= j < d.len() implies d[j].0 != e.last().0 by {
            assert(d[j] == e[j]);
        }
        lemma_entries_absent(d, e.last().0);
    } else {
        assert(entries_map(e).dom() =~= Set::<Seq<char>>::empty());
    }
}

/// Escaped form of `value` (`\`, `|`, newline and carriage return).
pub fn escape(value: &str) -> (out: String)
    ensures
        out@ == escape_spec(value@),
{
    let v = chars_of(value);
    let mut out: Vec<char> = Vec::new();
    let mut i: usize = 0;
    while i < v.len()
        invariant
            i <= v.len(),
            out@ == escape_spec(v@.take(i as int)),
        decreases v.len() - i,
    {
        let c = v[i];
        let ghost before = out@;
        if c == '\\' {
            out.push('\\');
            out.push('\\');
        } else if c == '|' {
            out.push('\\');
            out.push('|');
        } else if c == '\n' {
            out.push('\\');
            out.push('n');
        } else if c == '\r' {
            out.push('\\');
            out.push('r');
        } else {
            out.push(c);
        }
        proof {
            assert(out@ =~= before + esc(c));
            assert(v@.take(i as int + 1) =~= v@.take(i as int).push(c));
            lemma_escape_push(v@.take(i as int), c);
        }
        i = i + 1;
    }
    assert(v@.take(v.len() as int) =~= v@);
    string_of(&out)
}

fn unescape_chars(v: &[char]) -> (out: Vec<char>)
    ensures
        out@ == unescape_spec(v@),
{
    let mut out: Vec<char> = Vec::new();
    let mut i: usize = 0;
    assert(v@.skip(0) =~= v@);
    assert(out@ + unescape_spec(v@) =~= unescape_spec(v@));
    while i < v.len()
        invariant
            i <= v.len(),
            unescape_spec(v@) == out@ + unescape_spec(v@.skip(i as int)),
        decreases v.len() - i,
    {
        let ghost rest = v@.skip(i as int);
        let ghost before = out@;
        let c = v[i];
        if c != '\\' {
            out.push(c);
            assert(rest.skip(1) =~= v@.skip(i as int + 1));
            i = i + 1;
        } else if i + 1 == v.len() {
            out.push('\\');
            assert(v@.skip(i as int + 1) =~= Seq::<char>::empty());
            i = i + 1;
        } else {
            let d = v[i + 1];
            if d == '\\' {
                out.push('\\');
            } else if d == '|' {
                out.push('|');
            } else if d == 'n' {
                out.push('\n');
            } else if d == 'r' {
                out.push('\r');
            } else {
                out.push('\\');
                out.push(d);
            }
            assert(out@ =~= before + unesc_pair(d));
            assert(rest.skip(2) =~= v@.skip(i as int + 2));
            i = i + 2;
        }
        assert(unescape_spec(v@) == out@ + unescape_spec(v@.skip(i as int)));
    }
    out
}

/// Inverse of [`escape`]; unknown pairs and a trailing `\` are kept as written.
pub fn unescape(value: &str) -> (out: String)
    ensures
        out@ == unescape_spec(value@),
{
    let v = chars_of(value);
    string_of(&unescape_chars(&v))
}

/// Splits `line` at the first `|` that is not part of an escape pair.
pub fn split_once_unescaped(line: &[char]) -> (r: Option<(Vec<char>, Vec<char>)>)
    ensures
        match r {
            Some(p) => split_once(line@) == Some((p.0@, p.1@)),
            None => split_once(line@) is None,
        },
{
    let mut i: usize = 0;
    proof {
        assert(line@.skip(0) =~= line@);
        match split_once(line@) {
            Some(p) => {
                assert(line@.take(0) + p.0 =~= p.0);
            },
            None => {},
        }
    }
    while i < line.len()
        invariant
            i <= line.len(),
            split_once(line@) == match split_once(line@.skip(i as int)) {
                Some(p) => Some((line@.take(i as int) + p.0, p.1)),
                None => None,
            },
        decreases line.len() - i,
    {
        let ghost rest = line@.skip(i as int);
        if line[i] == '\\' {
            if i + 1 == line.len() {
                assert(split_once(rest) is None);
                return None;
            }
            assert(rest.skip(2) =~= line@.skip(i as int + 2));
            assert(rest.take(2) =~= line@.subrange(i as int, i as int + 2));
            assert(line@.take(i as int + 2) =~= line@.take(i as int) + rest.take(2));
            proof {
                match split_once(rest.skip(2)) {
                    Some(p) => {
                        assert(line@.take(i as int) + (rest.take(2) + p.0) =~= line@.take(
                            i as int + 2,
                        ) + p.0);
                    },
                    None => {},
                }
            }
            i = i + 2;
        } else if line[i] == '|' {
            let head = crate::text::slice_chars(line, 0, i);
            let tail = crate::text::slice_chars(line, i + 1, line.len());
            assert(rest.skip(1) =~= tail@);
            assert(head@ =~= line@.take(i as int) + Seq::<char>::empty());
            return Some((head, tail));
        } else {
            assert(rest.skip(1) =~= line@.skip(i as int + 1));
            assert(line@.take(i as int + 1) =~= line@.take(i as int) + seq![line@[i as int]]);
            proof {
                match split_once(rest.skip(1)) {
                    Some(p) => {
                        assert(line@.take(i as int) + (seq![line@[i as int]] + p.0) =~= line@.take(
                            i as int + 1,
                        ) + p.0);
                    },
                    None => {},
                }
            }
            i = i + 1;
        }
    }
    assert(line@.skip(i as int) =~= Seq::<char>::empty());
    None
}

/// Applies one line to the decoded messages.
fn apply_line(map: FlashMap, line: &[char]) -> (out: FlashMap)
    ensures
        out@ == process_line(map@, line@),
{
    if line.len() == 0 {
        return map;
    }
    match split_once_unescaped(line) {
        None => map,
        Some((kind_raw, message_raw)) => {
            let kind = unescape_chars(&kind_raw);
            if kind.len() == 0 {
                map
            } else {
                let message = unescape_chars(&message_raw);
                map.with_message(string_of(&kind), string_of(&message))
            }
        },
    }
}

/// Decodes the stored flash text.
pub fn decode(raw: &str) -> (out: FlashMap)
    ensures
        out@ == decode_text(raw@),
{
    let v = chars_of(raw);
    let mut map = FlashMap::new();
    let mut line: Vec<char> = Vec::new();
    let ghost mut done: Seq<Seq<char>> = seq![];
    let mut i: usize = 0;
    while i < v.len()
        invariant
            i <= v.len(),
            split_nl(v@.take(i as int)) == done.push(line@),
            map@ == fold_lines(Map::empty(), done),
        decreases v.len() - i,
    {
        let c = v[i];
        proof {
            assert(v@.take(i as int + 1).drop_last() =~= v@.take(i as int));
            assert(v@.take(i as int + 1).last() == c);
        }
        if c == '\n' {
            let ghost l = line@;
            let stripped = if line.len() > 0 && line[line.len() - 1] == '\r' {
                crate::text::slice_chars(&line, 0, line.len() - 1)
            } else {
                crate::text::slice_chars(&line, 0, line.len())
            };
            assert(stripped@ == strip_cr(l)) by {
                if l.len() > 0 && l.last() == '\r' {
                    assert(l.subrange(0, l.len() - 1) =~= l.drop_last());
                } else {
                    assert(l.subrange(0, l.len() as int) =~= l);
                }
            }
            map = apply_line(map, &stripped);
            proof {
                assert(done.push(l).drop_last() =~= done);
                done = done.push(l);
            }
            line = Vec::new();
            assert(split_nl(v@.take(i as int + 1)) =~= done.push(line@));
        } else {
            let ghost p = done.push(line@);
            line.push(c);
            assert(p.update(p.len() - 1, p.last().push(c)) =~= done.push(line@));
        }
        i = i + 1;
    }
    assert(v@.take(v.len() as int) =~= v@);
    assert(split_nl(v@).drop_last() =~= done);
    apply_line(map, &line)
}

/// Encodes `map` as stored text: one `kind|message` line per message,
/// kinds in ascending order.
pub fn encode(map: &FlashMap) -> (out: String)
    ensures
        out@ == encode_text(map.entries_view()),
{
    let ghost ev = map.entries_view();
    let mut out = String::new();
    let mut i: usize = 0;
    while i < map.entries.len()
        invariant
            i <= map.entries.len(),
            ev == map.entries_view(),
            ev.len() == map.entries.len(),
            out@ == encode_text(ev.take(i as int)),
        decreases map.entries.len() - i,
    {
        let kind = escape(map.entries[i].0.as_str());
        let msgs = &map.entries[i].1;
        let ghost k = ev[i as int].0;
        let ghost ms = ev[i as int].1;
        assert(k == map.entries@[i as int].0@);
        assert(ms == strings_view(msgs@));
        let ghost start = out@;
        let mut j: usize = 0;
        while j < msgs.len()
            invariant
                j <= msgs.len(),
                ms == strings_view(msgs@),
                kind@ == escape_spec(k),
                out@ == start + kind_text(k, ms.take(j as int)),
            decreases msgs.len() - j,
        {
            let ghost before = out@;
            crate::text::push_str(&mut out, kind.as_str());
            crate::text::push_char(&mut out, '|');
            let m = escape(msgs[j].as_str());
            crate::text::push_str(&mut out, m.as_str());
            crate::text::push_char(&mut out, '\n');
            proof {
                assert(ms[j as int] == msgs@[j as int]@);
                assert(ms.take(j as int + 1).drop_last() =~= ms.take(j as int));
                assert(ms.take(j as int + 1).last() == ms[j as int]);
                assert(out@ =~= before + line_of(k, ms[j as int]) + seq!['\n']);
            }
            j = j + 1;
        }
        proof {
            assert(ms.take(msgs.len() as int) =~= ms);
            assert(ev.take(i as int + 1).drop_last() =~= ev.take(i as int));
            assert(ev.take(i as int + 1).last() == ev[i as int]);
        }
        i = i + 1;
    }
    assert(ev.take(map.entries.len() as int) =~= ev);
    out
}

/// One-shot messages keyed by kind (`success`, `error`, ...), stored in a
/// [`Session`] attribute under [`FLASH_SESSION_KEY`].
pub struct FlashBag<'a> {
    pub session: &'a mut Session,
}

impl Session {
    /// Borrows the flash bag stored in this session.
    pub fn flash(&mut self) -> (b: FlashBag<'_>)
        ensures
            *b.session == *old(self),
            *final(self) == *final(b.session),
    {
        FlashBag { session: self }
    }
}

/// The session's attributes other than the flash attribute are `old`'s.
pub open spec fn same_outside_flash(old: &Session, new: &Session) -> bool {
    &&& new@.remove(FLASH_SESSION_KEY@) == old@.remove(FLASH_SESSION_KEY@)
    &&& new.id_view() == old.id_view()
    &&& new.new_view() == old.new_view()
    &&& new.invalidated_view() == old.invalidated_view()
}

fn load(session: &Session) -> (m: FlashMap)
    ensures
        m@ == flash_of(session@),
{
    match session.get(FLASH_SESSION_KEY) {
        Some(raw) => decode(raw),
        None => FlashMap::new(),
    }
}

fn save(session: &mut Session, map: &FlashMap)
    ensures
        flash_of(final(session)@) == map@,
        same_outside_flash(old(session), final(session)),
        final(session).modified_view() == (old(session).modified_view() || map@ != Map::<
            Seq<char>,
            Seq<Seq<char>>,
        >::empty() || old(session)@.dom().contains(FLASH_SESSION_KEY@)),
{
    proof {
        use_type_invariant(map);
        lemma_entries_empty(map.entries_view());
    }
    if map.is_empty() {
        session.remove(FLASH_SESSION_KEY);
        assert(final(session)@.remove(FLASH_SESSION_KEY@) =~= old(session)@.remove(FLASH_SESSION_KEY@));
    } else {
        let text = encode(map);
        session.set(FLASH_SESSION_KEY, text.as_str());
        proof {
            lemma_decode_encode(map.entries_view());
        }
        assert(final(session)@.remove(FLASH_SESSION_KEY@) =~= old(session)@.remove(FLASH_SESSION_KEY@));
    }
}

impl<'a> FlashBag<'a> {
    /// Appends `message` under `kind`; an empty kind is ignored.
    pub fn add(&mut self, kind: &str, message: &str)
        ensures
            *final(final(self).session) == *final(old(self).session),
            kind@.len() == 0 ==> *final(self).session == *old(self).session,
            kind@.len() > 0 ==> {
                &&& flash_of(final(self).session@) == add_msg(
                    flash_of(old(self).session@),
                    kind@,
                    message@,
                )
                &&& same_outside_flash(old(self).session, final(self).session)
                &&& final(self).session.modified_view()
            },
    {
        if kind.is_empty() {
            return;
        }
        let map = load(self.session);
        let map = map.with_message(kind.to_owned(), message.to_owned());
        save(self.session, &map);
    }

    /// Messages for `kind`, left in place.
    pub fn peek(&self, kind: &str) -> (r: Vec<String>)
        ensures
            strings_view(r@) == if flash_of(old(self.session)@).dom().contains(kind@) {
                flash_of(old(self.session)@)[kind@]
            } else {
                Seq::empty()
            },
    {
        let map = load(self.session);
        match map.get(kind) {
            Some(v) => clone_strings(v),
            None => {
                let v: Vec<String> = Vec::new();
                assert(strings_view(v@) =~= Seq::empty());
                v
            },
        }
    }

    /// Every flash message, left in place.
    pub fn peek_all(&self) -> (r: FlashMap)
        ensures
            r@ == flash_of(old(self.session)@),
    {
        load(self.session)
    }

    /// Messages for `kind`, removed from the bag.
    pub fn get(&mut self, kind: &str) -> (r: Vec<String>)
        ensures
            *final(final(self).session) == *final(old(self).session),
            strings_view(r@) == if flash_of(old(self).session@).dom().contains(kind@) {
                flash_of(old(self).session@)[kind@]
            } else {
                Seq::empty()
            },
            flash_of(final(self).session@) == flash_of(old(self).session@).remove(kind@),
            same_outside_flash(old(self).session, final(self).session),
    {
        let map = load(self.session);
        let (map, removed) = map.without(kind);
        save(self.session, &map);
        match removed {
            Some(v) => v,
            None => {
                let v: Vec<String> = Vec::new();
                assert(strings_view(v@) =~= Seq::empty());
                v
            },
        }
    }

    /// Every flash message; the bag is cleared.
    pub fn all(&mut self) -> (r: FlashMap)
        ensures
            *final(final(self).session) == *final(old(self).session),
            r@ == flash_of(old(self).session@),
            flash_of(final(self).session@) == Map::<Seq<char>, Seq<Seq<char>>>::empty(),
            same_outside_flash(old(self).session, final(self).session),
            !final(self).session@.dom().contains(FLASH_SESSION_KEY@),
    {
        let map = load(self.session);
        self.session.remove(FLASH_SESSION_KEY);
        assert(final(self).session@.remove(FLASH_SESSION_KEY@) =~= old(self).session@.remove(
            FLASH_SESSION_KEY@,
        ));
        map
    }

    /// Drops every flash message.
    pub fn clear(&mut self)
        ensures
            *final(final(self).session) == *final(old(self).session),
            flash_of(final(self).session@) == Map::<Seq<char>, Seq<Seq<char>>>::empty(),
            same_outside_flash(old(self).session, final(self).session),
            !final(self).session@.dom().contains(FLASH_SESSION_KEY@),
    {
        self.session.remove(FLASH_SESSION_KEY);
        assert(final(self).session@.remove(FLASH_SESSION_KEY@) =~= old(self).session@.remove(
            FLASH_SESSION_KEY@,
        ));
    }

    /// Whether no flash message is stored.
    pub fn is_empty(&self) -> (r: bool)
        ensures
            r == (flash_of(old(self.session)@) == Map::<Seq<char>, Seq<Seq<char>>>::empty()),
    {
        load(self.session).is_empty()
    }
}

} // verus!
