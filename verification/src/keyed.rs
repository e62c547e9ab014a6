//! Association lists keyed by text: the map they stand for (the first entry
//! for a key wins) and how list edits change it.

use vstd::prelude::*;

verus! {

/// Map of an association list: the first entry for a key wins.
pub open spec fn keyed_map<V>(s: Seq<(Seq<char>, V)>) -> Map<Seq<char>, V>
    decreases s.len(),
{
    if s.len() == 0 {
        Map::empty()
    } else {
        keyed_map(s.skip(1)).insert(s[0].0, s[0].1)
    }
}

/// `k` is a key of the map exactly when some entry carries it.
pub proof fn lemma_keyed_dom<V>(s: Seq<(Seq<char>, V)>, k: Seq<char>)
    ensures
        keyed_map(s).dom().contains(k) <==> exists|i: int| 0 <= i < s.len() && s[i].0 == k,
    decreases s.len(),
{
    if s.len() > 0 {
        lemma_keyed_dom(s.skip(1), k);
        if keyed_map(s.skip(1)).dom().contains(k) {
            let i = choose|i: int| 0 <= i < s.skip(1).len() && s.skip(1)[i].0 == k;
            assert(s[i + 1].0 == k);
        }
        if exists|i: int| 0 <= i < s.len() && s[i].0 == k {
            let i = choose|i: int| 0 <= i < s.len() && s[i].0 == k;
            if i > 0 {
                assert(s.skip(1)[i - 1].0 == k);
            }
        }
    }
}

/// The value of the first entry carrying a key.
pub proof fn lemma_keyed_first<V>(s: Seq<(Seq<char>, V)>, i: int)
    requires
        0 <= i < s.len(),
        forall|j: int| 0 <= j < i ==> s[j].0 != s[i].0,
    ensures
        keyed_map(s).dom().contains(s[i].0),
        keyed_map(s)[s[i].0] == s[i].1,
    decreases s.len(),
{
    if i > 0 {
        assert forall|j: int| 0 <= j < i - 1 implies #[trigger] s.skip(1)[j].0 != s.skip(1)[i - 1].0 by {
            assert(s.skip(1)[j] == s[j + 1]);
        }
        lemma_keyed_first(s.skip(1), i - 1);
        assert(s[0].0 != s[i].0);
    }
}

/// Replacing the value of the first entry for a key.
pub proof fn lemma_keyed_update<V>(s: Seq<(Seq<char>, V)>, i: int, v: V)
    requires
        0 <= i < s.len(),
        forall|j: int| 0 <= j < i ==> s[j].0 != s[i].0,
    ensures
        keyed_map(s.update(i, (s[i].0, v))) == keyed_map(s).insert(s[i].0, v),
    decreases s.len(),
{
    let t = s.update(i, (s[i].0, v));
    if i == 0 {
        assert(t.skip(1) =~= s.skip(1));
        assert(keyed_map(t) =~= keyed_map(s).insert(s[i].0, v));
    } else {
        assert forall|j: int| 0 <= j < i - 1 implies #[trigger] s.skip(1)[j].0 != s.skip(1)[i - 1].0 by {
            assert(s.skip(1)[j] == s[j + 1]);
        }
        lemma_keyed_update(s.skip(1), i - 1, v);
        assert(t.skip(1) =~= s.skip(1).update(i - 1, (s[i].0, v)));
        assert(s[0].0 != s[i].0);
        assert(keyed_map(t) =~= keyed_map(s).insert(s[i].0, v));
    }
}

/// Appending an entry for a key no entry carries.
pub proof fn lemma_keyed_push<V>(s: Seq<(Seq<char>, V)>, k: Seq<char>, v: V)
    requires
        forall|j: int| 0 <= j < s.len() ==> s[j].0 != k,
    ensures
        keyed_map(s.push((k, v))) == keyed_map(s).insert(k, v),
    decreases s.len(),
{
    let t = s.push((k, v));
    if s.len() == 0 {
        assert(t.skip(1) =~= Seq::<(Seq<char>, V)>::empty());
        assert(keyed_map(t.skip(1)) == Map::<Seq<char>, V>::empty());
        assert(keyed_map(s) == Map::<Seq<char>, V>::empty());
        assert(t[0] == (k, v));
        assert(keyed_map(t) =~= keyed_map(s).insert(k, v));
    } else {
        assert forall|j: int| 0 <= j < s.skip(1).len() implies s.skip(1)[j].0 != k by {
            assert(s.skip(1)[j] == s[j + 1]);
        }
        lemma_keyed_push(s.skip(1), k, v);
        assert(t.skip(1) =~= s.skip(1).push((k, v)));
        assert(s[0].0 != k);
        assert(keyed_map(t) =~= keyed_map(s).insert(k, v));
    }
}

/// Keys of an association list are pairwise distinct.
pub open spec fn keys_unique<V>(s: Seq<(Seq<char>, V)>) -> bool {
    forall|i: int, j: int| 0 <= i < j < s.len() ==> s[i].0 != s[j].0
}

/// Dropping the only entry for a key.
pub proof fn lemma_keyed_remove<V>(s: Seq<(Seq<char>, V)>, i: int)
    requires
        0 <= i < s.len(),
        keys_unique(s),
    ensures
        keyed_map(s.remove(i)) == keyed_map(s).remove(s[i].0),
        keys_unique(s.remove(i)),
    decreases s.len(),
{
    let t = s.remove(i);
    if i == 0 {
        assert(t =~= s.skip(1));
        assert forall|j: int| 0 <= j < s.skip(1).len() implies s.skip(1)[j].0 != s[0].0 by {
            assert(s.skip(1)[j] == s[j + 1]);
        }
        lemma_keyed_dom(s.skip(1), s[0].0);
        assert(keyed_map(t) =~= keyed_map(s).remove(s[i].0));
    } else {
        let r = s.skip(1);
        assert forall|a: int, b: int| 0 <= a < b < r.len() implies r[a].0 != r[b].0 by {
            assert(r[a] == s[a + 1]);
            assert(r[b] == s[b + 1]);
        }
        lemma_keyed_remove(r, i - 1);
        assert(t.skip(1) =~= r.remove(i - 1));
        assert(t[0] == s[0]);
        assert(s[0].0 != s[i].0);
        assert(keyed_map(t) =~= keyed_map(s).remove(s[i].0));
    }
}

/// A list with distinct keys has as many keys as entries.
pub proof fn lemma_keyed_len<V>(s: Seq<(Seq<char>, V)>)
    requires
        keys_unique(s),
    ensures
        keyed_map(s).dom().finite(),
        keyed_map(s).dom().len() == s.len(),
    decreases s.len(),
{
    if s.len() == 0 {
        assert(keyed_map(s).dom() =~= Set::<Seq<char>>::empty());
    } else {
        let r = s.skip(1);
        assert forall|a: int, b: int| 0 <= a < b < r.len() implies r[a].0 != r[b].0 by {
            assert(r[a] == s[a + 1]);
            assert(r[b] == s[b + 1]);
        }
        lemma_keyed_len(r);
        lemma_keyed_dom(r, s[0].0);
        assert forall|j: int| 0 <= j < r.len() implies r[j].0 != s[0].0 by {
            assert(r[j] == s[j + 1]);
        }
    }
}

} // verus!
