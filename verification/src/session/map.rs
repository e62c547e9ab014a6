//! String-keyed attribute map (session attributes, stored sessions, admin rows).

use vstd::prelude::*;

verus! {

/// Map view of an association list: the first entry for a key wins.
pub open spec fn assoc_map(s: Seq<(Seq<char>, Seq<char>)>) -> Map<Seq<char>, Seq<char>>
    decreases s.len(),
{
    if s.len() == 0 {
        Map::empty()
    } else {
        assoc_map(s.skip(1)).insert(s[0].0, s[0].1)
    }
}

/// The entries of `v`, each pair taken by its view.
pub open spec fn pairs_view(v: Seq<(String, String)>) -> Seq<(Seq<char>, Seq<char>)> {
    v.map_values(|p: (String, String)| (p.0@, p.1@))
}

/// `k` is a key of `assoc_map(s)` exactly when some entry carries it.
pub proof fn lemma_assoc_dom(s: Seq<(Seq<char>, Seq<char>)>, k: Seq<char>)
    ensures
        assoc_map(s).dom().contains(k) <==> exists|i: int| 0 <= i < s.len() && s[i].0 == k,
    decreases s.len(),
{
    if s.len() > 0 {
        lemma_assoc_dom(s.skip(1), k);
        if assoc_map(s.skip(1)).dom().contains(k) {
            let i = choose|i: int| 0 <= i < s.skip(1).len() && s.skip(1)[i].0 == k;
            assert(s[i + 1].0 == k);
        }
        if exists|i: int| 0 <= i < s.len() && s[i].0 == k {
            let i = choose|i: int| 0 <= i < s.len() && s[i].0 == k;
            if i > 0 {
                assert(s.skip(1)[i - 1].0 == k);
            }
        }
    }
}

/// The value of the first entry with key `k`.
pub proof fn lemma_assoc_first(s: Seq<(Seq<char>, Seq<char>)>, i: int)
    requires
        0 <= i < s.len(),
        forall|j: int| 0 <= j < i ==> s[j].0 != s[i].0,
    ensures
        assoc_map(s).dom().contains(s[i].0),
        assoc_map(s)[s[i].0] == s[i].1,
    decreases s.len(),
{
    if i > 0 {
        assert forall|j: int| 0 <= j < i - 1 implies #[trigger] s.skip(1)[j].0 != s.skip(1)[i - 1].0 by {
            assert(s.skip(1)[j] == s[j + 1]);
        }
        lemma_assoc_first(s.skip(1), i - 1);
        assert(s[0].0 != s[i].0);
    }
}

/// Replacing the first entry for a key updates the map at that key.
proof fn lemma_assoc_update(s: Seq<(Seq<char>, Seq<char>)>, i: int, v: Seq<char>)
    requires
        0 <= i < s.len(),
        forall|j: int| 0 <= j < i ==> s[j].0 != s[i].0,
    ensures
        assoc_map(s.update(i, (s[i].0, v))) == assoc_map(s).insert(s[i].0, v),
    decreases s.len(),
{
    let t = s.update(i, (s[i].0, v));
    if i == 0 {
        assert(t.skip(1) =~= s.skip(1));
        assert(assoc_map(t) =~= assoc_map(s).insert(s[i].0, v));
    } else {
        assert forall|j: int| 0 <= j < i - 1 implies #[trigger] s.skip(1)[j].0 != s.skip(1)[i - 1].0 by {
            assert(s.skip(1)[j] == s[j + 1]);
        }
        lemma_assoc_update(s.skip(1), i - 1, v);
        assert(t.skip(1) =~= s.skip(1).update(i - 1, (s[i].0, v)));
        assert(s[0].0 != s[i].0);
        assert(assoc_map(t) =~= assoc_map(s).insert(s[i].0, v));
    }
}

/// Appending an entry for an absent key adds that key.
proof fn lemma_assoc_push(s: Seq<(Seq<char>, Seq<char>)>, k: Seq<char>, v: Seq<char>)
    requires
        forall|j: int| 0 <= j < s.len() ==> s[j].0 != k,
    ensures
        assoc_map(s.push((k, v))) == assoc_map(s).insert(k, v),
    decreases s.len(),
{
    if s.len() == 0 {
        let t = s.push((k, v));
        assert(t.skip(1) =~= Seq::<(Seq<char>, Seq<char>)>::empty());
        assert(assoc_map(t.skip(1)) == Map::<Seq<char>, Seq<char>>::empty());
        assert(assoc_map(s) == Map::<Seq<char>, Seq<char>>::empty());
        assert(t[0] == (k, v));
        assert(assoc_map(t) =~= assoc_map(s).insert(k, v));
    } else {
        assert forall|j: int| 0 <= j < s.skip(1).len() implies s.skip(1)[j].0 != k by {
            assert(s.skip(1)[j] == s[j + 1]);
        }
        lemma_assoc_push(s.skip(1), k, v);
        assert(s.push((k, v)).skip(1) =~= s.skip(1).push((k, v)));
        assert(s[0].0 != k);
        assert(assoc_map(s.push((k, v))) =~= assoc_map(s).insert(k, v));
    }
}

/// Keeps the entries whose key is not `k`.
pub open spec fn other_key(k: Seq<char>) -> spec_fn((Seq<char>, Seq<char>)) -> bool {
    |p: (Seq<char>, Seq<char>)| p.0 != k
}

/// Dropping every entry for `k` removes `k` from the map.
proof fn lemma_assoc_filter(s: Seq<(Seq<char>, Seq<char>)>, k: Seq<char>)
    ensures
        assoc_map(s.filter(other_key(k))) == assoc_map(s).remove(k),
    decreases s.len(),
{
    let f = other_key(k);
    if s.len() == 0 {
        assert(s.filter(f) =~= s);
        assert(assoc_map(s).remove(k) =~= Map::empty());
    } else {
        lemma_assoc_filter(s.skip(1), k);
        assert(s =~= seq![s[0]] + s.skip(1));
        Seq::filter_distributes_over_add(seq![s[0]], s.skip(1), f);
        reveal_with_fuel(Seq::filter, 2);
        if s[0].0 == k {
            assert(seq![s[0]].filter(f) =~= Seq::<(Seq<char>, Seq<char>)>::empty());
            assert(s.filter(f) =~= s.skip(1).filter(f));
            assert(assoc_map(s.filter(f)) =~= assoc_map(s).remove(k));
        } else {
            assert(seq![s[0]].filter(f) =~= seq![s[0]]);
            assert(s.filter(f) =~= seq![s[0]] + s.skip(1).filter(f));
            assert((seq![s[0]] + s.skip(1).filter(f)).skip(1) =~= s.skip(1).filter(f));
            assert(assoc_map(s.filter(f)) =~= assoc_map(s).remove(k));
        }
    }
}

/// Number of distinct keys of an association list.
pub open spec fn distinct_keys(s: Seq<(Seq<char>, Seq<char>)>) -> nat
    decreases s.len(),
{
    if s.len() == 0 {
        0
    } else if exists|j: int| 1 <= j < s.len() && #[trigger] s[j].0 == s[0].0 {
        distinct_keys(s.skip(1))
    } else {
        distinct_keys(s.skip(1)) + 1
    }
}

pub proof fn lemma_assoc_len(s: Seq<(Seq<char>, Seq<char>)>)
    ensures
        assoc_map(s).dom().finite(),
        assoc_map(s).dom().len() == distinct_keys(s),
    decreases s.len(),
{
    if s.len() == 0 {
        assert(assoc_map(s).dom() =~= Set::<Seq<char>>::empty());
    } else {
        lemma_assoc_len(s.skip(1));
        lemma_assoc_dom(s.skip(1), s[0].0);
        if exists|j: int| 1 <= j < s.len() && #[trigger] s[j].0 == s[0].0 {
            let j = choose|j: int| 1 <= j < s.len() && #[trigger] s[j].0 == s[0].0;
            assert(s.skip(1)[j - 1].0 == s[0].0);
            assert(assoc_map(s).dom() =~= assoc_map(s.skip(1)).dom());
        } else {
            assert forall|i: int| 0 <= i < s.skip(1).len() implies s.skip(1)[i].0 != s[0].0 by {
                assert(s.skip(1)[i] == s[i + 1]);
            }
        }
    }
}

/// String-to-string attribute map.
///
/// Lookups see the first entry for a key; inserts keep one entry per key.
#[derive(Clone, Debug, Default)]
pub struct StringMap {
    entries: Vec<(String, String)>,
}

impl View for StringMap {
    type V = Map<Seq<char>, Seq<char>>;

    closed spec fn view(&self) -> Map<Seq<char>, Seq<char>> {
        assoc_map(pairs_view(self.entries@))
    }
}

impl StringMap {
    /// Entries in storage order, each pair taken by its view.
    pub closed spec fn pairs(&self) -> Seq<(Seq<char>, Seq<char>)> {
        pairs_view(self.entries@)
    }

    /// Empty map.
    pub fn new() -> (m: StringMap)
        ensures
            m@ == Map::<Seq<char>, Seq<char>>::empty(),
    {
        let m = StringMap { entries: Vec::new() };
        assert(pairs_view(m.entries@) =~= Seq::empty());
        m
    }

    /// Index of the first entry for `key`.
    fn find(&self, key: &String) -> (r: Option<usize>)
        ensures
            match r {
                Some(i) => {
                    &&& i < self.entries.len()
                    &&& self.entries@[i as int].0@ == key@
                    &&& forall|j: int| 0 <= j < i ==> self.entries@[j].0@ != key@
                },
                None => forall|j: int|
                    0 <= j < self.entries.len() ==> self.entries@[j].0@ != key@,
            },
    {
        let mut i: usize = 0;
        while i < self.entries.len()
            invariant
                i <= self.entries.len(),
                forall|j: int| 0 <= j < i ==> self.entries@[j].0@ != key@,
            decreases self.entries.len() - i,
        {
            if self.entries[i].0 == *key {
                return Some(i);
            }
            i = i + 1;
        }
        None
    }

    proof fn lemma_found(&self, key: Seq<char>, r: Option<usize>)
        requires
            match r {
                Some(i) => {
                    &&& i < self.entries.len()
                    &&& self.entries@[i as int].0@ == key
                    &&& forall|j: int| 0 <= j < i ==> self.entries@[j].0@ != key
                },
                None => forall|j: int|
                    0 <= j < self.entries.len() ==> self.entries@[j].0@ != key,
            },
        ensures
            match r {
                Some(i) => self@.dom().contains(key) && self@[key] == self.entries@[i as int].1@,
                None => !self@.dom().contains(key),
            },
    {
        let p = pairs_view(self.entries@);
        match r {
            Some(i) => {
                assert forall|j: int| 0 <= j < i implies p[j].0 != p[i as int].0 by {}
                lemma_assoc_first(p, i as int);
            },
            None => {
                lemma_assoc_dom(p, key);
            },
        }
    }

    /// Value stored under `key`.
    pub fn get(&self, key: &str) -> (r: Option<&String>)
        ensures
            match r {
                Some(v) => self@.dom().contains(key@) && self@[key@] == v@,
                None => !self@.dom().contains(key@),
            },
    {
        let k = key.to_owned();
        let r = self.find(&k);
        proof {
            self.lemma_found(key@, r);
        }
        match r {
            Some(i) => Some(&self.entries[i].1),
            None => None,
        }
    }

    /// Value stored under `key`, as a `&str`.
    pub fn get_str(&self, key: &str) -> (r: Option<&str>)
        ensures
            match r {
                Some(v) => self@.dom().contains(key@) && self@[key@] == v@,
                None => !self@.dom().contains(key@),
            },
    {
        match self.get(key) {
            Some(v) => Some(v.as_str()),
            None => None,
        }
    }

    /// Whether `key` is present.
    pub fn contains_key(&self, key: &str) -> (r: bool)
        ensures
            r == self@.dom().contains(key@),
    {
        self.get(key).is_some()
    }

    /// Stores `value` under `key`, replacing any previous value.
    pub fn insert(&mut self, key: String, value: String)
        ensures
            final(self)@ == old(self)@.insert(key@, value@),
    {
        let r = self.find(&key);
        let ghost old_p = pairs_view(self.entries@);
        match r {
            Some(i) => {
                self.entries.set(i, (key, value));
                proof {
                    assert(pairs_view(self.entries@) =~= old_p.update(
                        i as int,
                        (old_p[i as int].0, value@),
                    ));
                    lemma_assoc_update(old_p, i as int, value@);
                }
            },
            None => {
                let ghost kv = key@;
                let ghost vv = value@;
                self.entries.push((key, value));
                proof {
                    assert(pairs_view(self.entries@) =~= old_p.push((kv, vv)));
                    lemma_assoc_push(old_p, kv, vv);
                }
            },
        }
    }

    /// Removes `key`, returning its previous value.
    pub fn remove(&mut self, key: &str) -> (r: Option<String>)
        ensures
            final(self)@ == old(self)@.remove(key@),
            match r {
                Some(v) => old(self)@.dom().contains(key@) && old(self)@[key@] == v@,
                None => !old(self)@.dom().contains(key@),
            },
    {
        let k = key.to_owned();
        let found = self.find(&k);
        proof {
            self.lemma_found(key@, found);
        }
        let ghost f = other_key(key@);
        let ghost old_p = pairs_view(self.entries@);
        let mut kept: Vec<(String, String)> = Vec::new();
        let mut removed: Option<String> = None;
        let mut i: usize = 0;
        while i < self.entries.len()
            invariant
                i <= self.entries.len(),
                old_p == pairs_view(self.entries@),
                f == other_key(key@),
                pairs_view(kept@) == old_p.take(i as int).filter(f),
                k@ == key@,
                match found {
                    Some(fi) => (fi < i ==> removed.is_some() && removed.unwrap()@
                        == self.entries@[fi as int].1@) && (fi >= i ==> removed.is_none()),
                    None => removed.is_none(),
                },
                match found {
                    Some(fi) => fi < self.entries.len() && self.entries@[fi as int].0@ == key@
                        && forall|j: int| 0 <= j < fi ==> self.entries@[j].0@ != key@,
                    None => forall|j: int|
                        0 <= j < self.entries.len() ==> self.entries@[j].0@ != key@,
                },
            decreases self.entries.len() - i,
        {
            let ghost before = kept@;
            let e0 = self.entries[i].0.clone();
            let e1 = self.entries[i].1.clone();
            proof {
                reveal(Seq::filter);
                assert(old_p.take(i as int + 1).drop_last() =~= old_p.take(i as int));
                assert(old_p.take(i as int + 1).last() == old_p[i as int]);
                assert(old_p[i as int] == (self.entries@[i as int].0@, self.entries@[i as int].1@));
                let t = old_p.take(i as int + 1);
                assert(t.filter(f) == if f(t.last()) {
                    t.drop_last().filter(f).push(t.last())
                } else {
                    t.drop_last().filter(f)
                });
                assert(f(old_p[i as int]) == (old_p[i as int].0 != key@));
                assert(e0@ == self.entries@[i as int].0@);
                assert(e1@ == self.entries@[i as int].1@);
            }
            if e0 == k {
                if removed.is_none() {
                    removed = Some(e1);
                }
                proof {
                    reveal(Seq::filter);
                    assert(pairs_view(kept@) =~= old_p.take(i as int + 1).filter(f));
                }
            } else {
                kept.push((e0, e1));
                proof {
                    reveal(Seq::filter);
                    assert(pairs_view(kept@) =~= pairs_view(before).push(old_p[i as int]));
                    assert(pairs_view(kept@) =~= old_p.take(i as int + 1).filter(f));
                }
            }
            i = i + 1;
        }
        proof {
            assert(old_p.take(self.entries.len() as int) =~= old_p);
            lemma_assoc_filter(old_p, key@);
        }
        self.entries = kept;
        removed
    }

    /// Number of keys.
    pub fn len(&self) -> (r: usize)
        ensures
            r == self@.dom().len(),
    {
        let ghost p = pairs_view(self.entries@);
        let n = self.entries.len();
        let mut count: usize = 0;
        let mut i: usize = n;
        assert(p.skip(n as int) =~= Seq::<(Seq<char>, Seq<char>)>::empty());
        while i > 0
            invariant
                i <= n,
                n == self.entries.len(),
                p == pairs_view(self.entries@),
                count == distinct_keys(p.skip(i as int)),
                count <= n - i,
            decreases i,
        {
            let k = i - 1;
            let mut seen = false;
            let mut j: usize = i;
            while j < n
                invariant
                    i <= j <= n,
                    k == i - 1,
                    n == self.entries.len(),
                    p == pairs_view(self.entries@),
                    seen == exists|t: int| i <= t < j && #[trigger] p[t].0 == p[k as int].0,
                decreases n - j,
            {
                assert(p[j as int].0 == self.entries@[j as int].0@);
                assert(p[k as int].0 == self.entries@[k as int].0@);
                if self.entries[j].0 == self.entries[k].0 {
                    seen = true;
                }
                j = j + 1;
            }
            proof {
                let q = p.skip(k as int);
                assert(q.skip(1) =~= p.skip(i as int));
                assert(q[0] == p[k as int]);
                if seen {
                    let t = choose|t: int| i <= t < n && #[trigger] p[t].0 == p[k as int].0;
                    assert(q[t - k].0 == q[0].0);
                } else {
                    assert forall|u: int| 1 <= u < q.len() implies #[trigger] q[u].0 != q[0].0 by {
                        assert(q[u] == p[u + k]);
                    }
                }
            }
            if !seen {
                count = count + 1;
            }
            i = k;
        }
        proof {
            assert(p.skip(0) =~= p);
            lemma_assoc_len(p);
        }
        count
    }

    /// Removes every entry.
    pub fn clear(&mut self)
        ensures
            final(self)@ == Map::<Seq<char>, Seq<char>>::empty(),
    {
        self.entries = Vec::new();
        assert(pairs_view(self.entries@) =~= Seq::empty());
    }

    /// Whether the map has no entries.
    pub fn is_empty(&self) -> (r: bool)
        ensures
            r == (self@ == Map::<Seq<char>, Seq<char>>::empty()),
    {
        let ghost p = pairs_view(self.entries@);
        if self.entries.len() == 0 {
            assert(p =~= Seq::empty());
            true
        } else {
            proof {
                lemma_assoc_dom(p, p[0].0);
                assert(self@.dom().contains(p[0].0));
                assert(!Map::<Seq<char>, Seq<char>>::empty().dom().contains(p[0].0));
            }
            false
        }
    }

    /// Keys and values in storage order.
    pub fn to_pairs(&self) -> (out: Vec<(String, String)>)
        ensures
            pairs_view(out@) == self.pairs(),
            assoc_map(pairs_view(out@)) == self@,
    {
        let mut out: Vec<(String, String)> = Vec::new();
        let mut i: usize = 0;
        while i < self.entries.len()
            invariant
                i <= self.entries.len(),
                pairs_view(out@) == pairs_view(self.entries@).take(i as int),
            decreases self.entries.len() - i,
        {
            let a = self.entries[i].0.clone();
            let b = self.entries[i].1.clone();
            let ghost before = out@;
            out.push((a, b));
            assert(pairs_view(out@) =~= pairs_view(before).push(pairs_view(self.entries@)[i as int]));
            assert(pairs_view(self.entries@).take(i as int + 1) =~= pairs_view(self.entries@).take(
                i as int,
            ).push(pairs_view(self.entries@)[i as int]));
            i = i + 1;
        }
        assert(pairs_view(self.entries@).take(self.entries.len() as int) =~= pairs_view(
            self.entries@,
        ));
        out
    }

    /// A copy of this map.
    pub fn duplicate(&self) -> (out: StringMap)
        ensures
            out@ == self@,
    {
        StringMap { entries: self.to_pairs() }
    }
}

} // verus!
