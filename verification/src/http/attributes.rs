//! Request attributes bag (route parameters and request-scoped values).

use vstd::prelude::*;

use crate::keyed::{
    keyed_map, keys_unique, lemma_keyed_dom, lemma_keyed_first, lemma_keyed_len,
    lemma_keyed_push, lemma_keyed_remove, lemma_keyed_update,
};
use crate::security::user::UsernamePasswordToken;
use crate::session::session::Session;

verus! {

/// A value stored in an [`AttributeBag`].
#[derive(Debug)]
pub enum AttributeValue {
    /// Text, such as a route parameter or the matched route's name.
    Text(String),
    /// An unsigned number.
    Number(u64),
    /// The request's session.
    Session(Session),
    /// The request's security token.
    Token(UsernamePasswordToken),
}

/// A type that can be stored in an [`AttributeBag`].
pub trait Attribute: Sized {
    /// The stored form of `self`.
    spec fn wrap_spec(self) -> AttributeValue;

    /// The value of this type that `v` holds, if it holds one.
    spec fn unwrap_spec(v: AttributeValue) -> Option<Self>;

    /// A stored value reads back as itself.
    proof fn lemma_unwrap_wrap(x: Self)
        ensures
            Self::unwrap_spec(x.wrap_spec()) == Some(x),
    ;

    fn wrap(self) -> (v: AttributeValue)
        ensures
            v == self.wrap_spec(),
    ;

    fn peek(v: &AttributeValue) -> (r: Option<&Self>)
        ensures
            match r {
                Some(x) => Self::unwrap_spec(*v) == Some(*x),
                None => Self::unwrap_spec(*v) is None,
            },
    ;

    fn peek_mut(v: &mut AttributeValue) -> (r: Option<&mut Self>)
        ensures
            match r {
                Some(x) => Self::unwrap_spec(*old(v)) == Some(*x) && *final(v) == (
                *final(x)).wrap_spec(),
                None => Self::unwrap_spec(*old(v)) is None && *final(v) == *old(v),
            },
    ;

    fn unwrap(v: AttributeValue) -> (r: Option<Self>)
        ensures
            r == Self::unwrap_spec(v),
    ;
}

impl Attribute for String {
    open spec fn wrap_spec(self) -> AttributeValue {
        AttributeValue::Text(self)
    }

    open spec fn unwrap_spec(v: AttributeValue) -> Option<String> {
        match v {
            AttributeValue::Text(s) => Some(s),
            _ => None,
        }
    }

    proof fn lemma_unwrap_wrap(x: String) {
    }

    fn wrap(self) -> (v: AttributeValue) {
        AttributeValue::Text(self)
    }

    fn peek(v: &AttributeValue) -> (r: Option<&String>) {
        match v {
            AttributeValue::Text(s) => Some(s),
            _ => None,
        }
    }

    fn peek_mut(v: &mut AttributeValue) -> (r: Option<&mut String>) {
        match v {
            AttributeValue::Text(s) => Some(s),
            _ => None,
        }
    }

    fn unwrap(v: AttributeValue) -> (r: Option<String>) {
        match v {
            AttributeValue::Text(s) => Some(s),
            _ => None,
        }
    }
}

impl Attribute for u64 {
    open spec fn wrap_spec(self) -> AttributeValue {
        AttributeValue::Number(self)
    }

    open spec fn unwrap_spec(v: AttributeValue) -> Option<u64> {
        match v {
            AttributeValue::Number(n) => Some(n),
            _ => None,
        }
    }

    proof fn lemma_unwrap_wrap(x: u64) {
    }

    fn wrap(self) -> (v: AttributeValue) {
        AttributeValue::Number(self)
    }

    fn peek(v: &AttributeValue) -> (r: Option<&u64>) {
        match v {
            AttributeValue::Number(n) => Some(n),
            _ => None,
        }
    }

    fn peek_mut(v: &mut AttributeValue) -> (r: Option<&mut u64>) {
        match v {
            AttributeValue::Number(n) => Some(n),
            _ => None,
        }
    }

    fn unwrap(v: AttributeValue) -> (r: Option<u64>) {
        match v {
            AttributeValue::Number(n) => Some(n),
            _ => None,
        }
    }
}

impl Attribute for Session {
    open spec fn wrap_spec(self) -> AttributeValue {
        AttributeValue::Session(self)
    }

    open spec fn unwrap_spec(v: AttributeValue) -> Option<Session> {
        match v {
            AttributeValue::Session(s) => Some(s),
            _ => None,
        }
    }

    proof fn lemma_unwrap_wrap(x: Session) {
    }

    fn wrap(self) -> (v: AttributeValue) {
        AttributeValue::Session(self)
    }

    fn peek(v: &AttributeValue) -> (r: Option<&Session>) {
        match v {
            AttributeValue::Session(s) => Some(s),
            _ => None,
        }
    }

    fn peek_mut(v: &mut AttributeValue) -> (r: Option<&mut Session>) {
        match v {
            AttributeValue::Session(s) => Some(s),
            _ => None,
        }
    }

    fn unwrap(v: AttributeValue) -> (r: Option<Session>) {
        match v {
            AttributeValue::Session(s) => Some(s),
            _ => None,
        }
    }
}

impl Attribute for UsernamePasswordToken {
    open spec fn wrap_spec(self) -> AttributeValue {
        AttributeValue::Token(self)
    }

    open spec fn unwrap_spec(v: AttributeValue) -> Option<UsernamePasswordToken> {
        match v {
            AttributeValue::Token(t) => Some(t),
            _ => None,
        }
    }

    proof fn lemma_unwrap_wrap(x: UsernamePasswordToken) {
    }

    fn wrap(self) -> (v: AttributeValue) {
        AttributeValue::Token(self)
    }

    fn peek(v: &AttributeValue) -> (r: Option<&UsernamePasswordToken>) {
        match v {
            AttributeValue::Token(t) => Some(t),
            _ => None,
        }
    }

    fn peek_mut(v: &mut AttributeValue) -> (r: Option<&mut UsernamePasswordToken>) {
        match v {
            AttributeValue::Token(t) => Some(t),
            _ => None,
        }
    }

    fn unwrap(v: AttributeValue) -> (r: Option<UsernamePasswordToken>) {
        match v {
            AttributeValue::Token(t) => Some(t),
            _ => None,
        }
    }
}

/// Entries of the bag: each key, taken by its view, with its value.
pub open spec fn bag_entries(keys: Seq<String>, vals: Seq<AttributeValue>) -> Seq<
    (Seq<char>, AttributeValue),
> {
    Seq::new(keys.len(), |i: int| (keys[i]@, vals[i]))
}

/// Replacing the value of the entry at `i` when keys are distinct.
proof fn lemma_set_value(keys: Seq<String>, vals: Seq<AttributeValue>, i: int)
    requires
        0 <= i < keys.len(),
        keys.len() == vals.len(),
        keys_unique(bag_entries(keys, vals)),
    ensures
        forall|w: AttributeValue|
            #[trigger] keyed_map(bag_entries(keys, vals.update(i, w))) == keyed_map(
                bag_entries(keys, vals),
            ).insert(keys[i]@, w),
{
    let e = bag_entries(keys, vals);
    assert forall|w: AttributeValue|
        #[trigger] keyed_map(bag_entries(keys, vals.update(i, w))) == keyed_map(e).insert(
            keys[i]@,
            w,
        ) by {
        assert(bag_entries(keys, vals.update(i, w)) =~= e.update(i, (e[i].0, w)));
        lemma_keyed_update(e, i, w);
    }
}

/// Values keyed by string, at most one per key.
#[derive(Debug)]
pub struct AttributeBag {
    keys: Vec<String>,
    vals: Vec<AttributeValue>,
}

impl View for AttributeBag {
    type V = Map<Seq<char>, AttributeValue>;

    closed spec fn view(&self) -> Map<Seq<char>, AttributeValue> {
        keyed_map(bag_entries(self.keys@, self.vals@))
    }
}

/// The value of type `T` stored under `key`, if one is.
pub open spec fn typed_get<T: Attribute>(m: Map<Seq<char>, AttributeValue>, key: Seq<char>) -> Option<
    T,
> {
    if m.dom().contains(key) {
        T::unwrap_spec(m[key])
    } else {
        None
    }
}

/// Reading back after a store: the value stored under `key` reads back as
/// itself with its own type, and every other key keeps what it held (as
/// [`AttributeBag::insert`] and [`AttributeBag::get`] state over the bag's
/// view).
pub proof fn lemma_get_after_insert<T: Attribute, U: Attribute>(
    m: Map<Seq<char>, AttributeValue>,
    key: Seq<char>,
    value: T,
    other: Seq<char>,
)
    ensures
        typed_get::<T>(m.insert(key, value.wrap_spec()), key) == Some(value),
        other != key ==> typed_get::<U>(m.insert(key, value.wrap_spec()), other) == typed_get::<U>(
            m,
            other,
        ),
{
    T::lemma_unwrap_wrap(value);
}

impl AttributeBag {
    #[verifier::type_invariant]
    closed spec fn wf(&self) -> bool {
        &&& self.keys@.len() == self.vals@.len()
        &&& forall|i: int, j: int|
            0 <= i < j < self.keys@.len() ==> self.keys@[i]@ != self.keys@[j]@
    }

    proof fn lemma_unique(&self)
        requires
            self.wf(),
        ensures
            keys_unique(bag_entries(self.keys@, self.vals@)),
    {
        let e = bag_entries(self.keys@, self.vals@);
        assert forall|i: int, j: int| 0 <= i < j < e.len() implies e[i].0 != e[j].0 by {
            assert(e[i].0 == self.keys@[i]@);
            assert(e[j].0 == self.keys@[j]@);
        }
    }

    /// Moves the contents out, leaving `self` empty.
    fn take_parts(&mut self) -> (r: (Vec<String>, Vec<AttributeValue>))
        ensures
            final(self)@ == Map::<Seq<char>, AttributeValue>::empty(),
            r.0@.len() == r.1@.len(),
            bag_entries(r.0@, r.1@) == bag_entries(old(self).keys@, old(self).vals@),
            keys_unique(bag_entries(r.0@, r.1@)),
    {
        proof {
            use_type_invariant(&*self);
            self.lemma_unique();
        }
        let mut taken = AttributeBag::new();
        std::mem::swap(&mut taken, self);
        proof {
            use_type_invariant(&taken);
        }
        let AttributeBag { keys, vals } = taken;
        (keys, vals)
    }

    /// Empty bag.
    pub fn new() -> (b: AttributeBag)
        ensures
            b@ == Map::<Seq<char>, AttributeValue>::empty(),
    {
        let b = AttributeBag { keys: Vec::new(), vals: Vec::new() };
        assert(bag_entries(b.keys@, b.vals@) =~= Seq::empty());
        b
    }

    fn find(&self, key: &str) -> (r: Option<usize>)
        ensures
            match r {
                Some(i) => i < self.keys@.len() && i < self.vals@.len() && self.keys@[i as int]@
                    == key@ && self@.dom().contains(key@) && self@[key@] == self.vals@[i as int],
                None => !self@.dom().contains(key@),
            },
    {
        proof {
            use_type_invariant(self);
            self.lemma_unique();
        }
        let ghost e = bag_entries(self.keys@, self.vals@);
        let mut i: usize = 0;
        while i < self.keys.len()
            invariant
                i <= self.keys.len(),
                self.keys@.len() == self.vals@.len(),
                e == bag_entries(self.keys@, self.vals@),
                keys_unique(e),
                forall|j: int| 0 <= j < i ==> self.keys@[j]@ != key@,
            decreases self.keys.len() - i,
        {
            if crate::text::str_eq(self.keys[i].as_str(), key) {
                proof {
                    assert(e[i as int].0 == key@);
                    assert forall|j: int| 0 <= j < i implies e[j].0 != e[i as int].0 by {
                        assert(e[j].0 == self.keys@[j]@);
                    }
                    lemma_keyed_first(e, i as int);
                }
                return Some(i);
            }
            i = i + 1;
        }
        proof {
            lemma_keyed_dom(e, key@);
            if self@.dom().contains(key@) {
                let j = choose|j: int| 0 <= j < e.len() && e[j].0 == key@;
                assert(self.keys@[j]@ == key@);
            }
        }
        None
    }

    /// Stores `value` under `key`, replacing any previous entry.
    pub fn insert<T: Attribute>(&mut self, key: &str, value: T)
        ensures
            final(self)@ == old(self)@.insert(key@, value.wrap_spec()),
            final(self)@.dom().finite(),
            final(self)@.dom().len() == old(self)@.dom().len() + if old(self)@.dom().contains(
                key@,
            ) {
                0int
            } else {
                1int
            },
    {
        proof {
            use_type_invariant(&*self);
            self.lemma_unique();
            lemma_keyed_len(bag_entries(self.keys@, self.vals@));
        }
        let found = self.find(key);
        let ghost e = bag_entries(self.keys@, self.vals@);
        let v = value.wrap();
        let (mut keys, mut vals) = self.take_parts();
        assert(bag_entries(keys@, vals@) == e);
        match found {
            Some(i) => {
                vals.set(i, v);
                proof {
                    assert(bag_entries(keys@, vals@) =~= e.update(i as int, (e[i as int].0, v)));
                    lemma_keyed_update(e, i as int, v);
                    assert(key@ == e[i as int].0);
                }
            },
            None => {
                let ghost kv = key@;
                keys.push(key.to_owned());
                vals.push(v);
                proof {
                    assert(bag_entries(keys@, vals@) =~= e.push((kv, v)));
                    lemma_keyed_dom(e, kv);
                    assert forall|j: int| 0 <= j < e.len() implies e[j].0 != kv by {}
                    lemma_keyed_push(e, kv, v);
                }
            },
        }
        proof {
            assert(bag_entries(keys@, vals@).len() == keys@.len());
            assert forall|a: int, b: int| 0 <= a < b < keys@.len() implies keys@[a]@ != keys@[b]@ by {
                assert(bag_entries(keys@, vals@)[a].0 == keys@[a]@);
                assert(bag_entries(keys@, vals@)[b].0 == keys@[b]@);
            }
        }
        *self = AttributeBag { keys, vals };
    }

    /// The value of type `T` stored at `key`.
    pub fn get<T: Attribute>(&self, key: &str) -> (r: Option<&T>)
        ensures
            match r {
                Some(x) => typed_get::<T>(self@, key@) == Some(*x),
                None => typed_get::<T>(self@, key@) is None,
            },
    {
        match self.find(key) {
            Some(i) => T::peek(&self.vals[i]),
            None => None,
        }
    }

    /// Mutable access to the value of type `T` stored at `key`.
    pub fn get_mut<T: Attribute>(&mut self, key: &str) -> (r: Option<&mut T>)
        ensures
            match r {
                Some(x) => typed_get::<T>(old(self)@, key@) == Some(*x) && final(self)@ == old(
                    self,
                )@.insert(key@, (*final(x)).wrap_spec()),
                None => typed_get::<T>(old(self)@, key@) is None && final(self)@ == old(self)@,
            },
    {
        proof {
            use_type_invariant(&*self);
        }
        match self.find(key) {
            None => None,
            Some(i) => {
                proof {
                    self.lemma_unique();
                    lemma_set_value(self.keys@, self.vals@, i as int);
                }
                let slot = &mut self.vals[i];
                T::peek_mut(slot)
            },
        }
    }

    /// Whether `key` is present, whatever the type of its value.
    pub fn contains(&self, key: &str) -> (r: bool)
        ensures
            r == self@.dom().contains(key@),
    {
        self.find(key).is_some()
    }

    /// Removes the value of type `T` stored at `key`.  An entry of another
    /// type is removed too, and `None` returned.
    pub fn remove<T: Attribute>(&mut self, key: &str) -> (r: Option<T>)
        ensures
            final(self)@ == old(self)@.remove(key@),
            r == typed_get::<T>(old(self)@, key@),
            final(self)@.dom().finite(),
            final(self)@.dom().len() == old(self)@.dom().len() - if old(self)@.dom().contains(
                key@,
            ) {
                1int
            } else {
                0int
            },
    {
        proof {
            use_type_invariant(&*self);
            self.lemma_unique();
            lemma_keyed_len(bag_entries(self.keys@, self.vals@));
        }
        let ghost e = bag_entries(self.keys@, self.vals@);
        match self.find(key) {
            None => {
                assert(old(self)@.remove(key@) =~= old(self)@);
                None
            },
            Some(i) => {
                let (mut keys, mut vals) = self.take_parts();
                assert(bag_entries(keys@, vals@) == e);
                let _k = keys.remove(i);
                let v = vals.remove(i);
                proof {
                    assert(bag_entries(keys@, vals@) =~= e.remove(i as int));
                    lemma_keyed_remove(e, i as int);
                    let f = bag_entries(keys@, vals@);
                    assert forall|a: int, b: int| 0 <= a < b < keys@.len() implies keys@[a]@
                        != keys@[b]@ by {
                        assert(f[a].0 == keys@[a]@);
                        assert(f[b].0 == keys@[b]@);
                    }
                }
                *self = AttributeBag { keys, vals };
                T::unwrap(v)
            },
        }
    }

    /// Number of entries.
    pub fn len(&self) -> (r: usize)
        ensures
            r == self@.dom().len(),
    {
        proof {
            use_type_invariant(self);
            self.lemma_unique();
            lemma_keyed_len(bag_entries(self.keys@, self.vals@));
        }
        self.keys.len()
    }

    /// Whether the bag is empty.
    pub fn is_empty(&self) -> (r: bool)
        ensures
            r == (self@.dom().len() == 0),
    {
        self.len() == 0
    }
}

} // verus!
