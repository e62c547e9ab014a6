//! In-request session attribute bag.

use vstd::prelude::*;

use crate::session::map::StringMap;

verus! {

/// Attribute bag for one request, identified by an opaque session id.
///
/// A session is *new* when created for a visitor without a stored session,
/// *modified* once an attribute changed, and *invalidated* after
/// [`Session::invalidate`].
#[derive(Clone, Debug)]
pub struct Session {
    id: String,
    attributes: StringMap,
    new: bool,
    modified: bool,
    invalidated: bool,
}

impl View for Session {
    type V = Map<Seq<char>, Seq<char>>;

    closed spec fn view(&self) -> Map<Seq<char>, Seq<char>> {
        self.attributes@
    }
}

impl Session {
    /// The session id.
    pub closed spec fn id_view(&self) -> Seq<char> {
        self.id@
    }

    /// Whether this session was created for a visitor without a stored session.
    pub closed spec fn new_view(&self) -> bool {
        self.new
    }

    /// Whether an attribute changed since the session was opened.
    pub closed spec fn modified_view(&self) -> bool {
        self.modified
    }

    /// Whether [`Session::invalidate`] was called.
    pub closed spec fn invalidated_view(&self) -> bool {
        self.invalidated
    }

    /// Fresh, empty session under `id`.
    pub fn new(id: &str) -> (s: Session)
        ensures
            s@ == Map::<Seq<char>, Seq<char>>::empty(),
            s.id_view() == id@,
            s.new_view(),
            !s.modified_view(),
            !s.invalidated_view(),
    {
        Session {
            id: id.to_owned(),
            attributes: StringMap::new(),
            new: true,
            modified: false,
            invalidated: false,
        }
    }

    /// Session restored from a store under `id`.
    pub fn existing(id: &str, attributes: StringMap) -> (s: Session)
        ensures
            s@ == attributes@,
            s.id_view() == id@,
            !s.new_view(),
            !s.modified_view(),
            !s.invalidated_view(),
    {
        Session { id: id.to_owned(), attributes, new: false, modified: false, invalidated: false }
    }

    /// The session id.
    pub fn id(&self) -> (r: &str)
        ensures
            r@ == self.id_view(),
    {
        self.id.as_str()
    }

    /// Whether the session was created for a visitor without a stored session.
    pub fn is_new(&self) -> (r: bool)
        ensures
            r == self.new_view(),
    {
        self.new
    }

    /// Whether the session must be written back: new or modified.
    pub fn is_dirty(&self) -> (r: bool)
        ensures
            r == (self.new_view() || self.modified_view()),
    {
        self.new || self.modified
    }

    /// Whether [`Session::invalidate`] was called.
    pub fn is_invalidated(&self) -> (r: bool)
        ensures
            r == self.invalidated_view(),
    {
        self.invalidated
    }

    /// The attribute value stored under `key`.
    pub fn get(&self, key: &str) -> (r: Option<&str>)
        ensures
            match r {
                Some(v) => self@.dom().contains(key@) && self@[key@] == v@,
                None => !self@.dom().contains(key@),
            },
    {
        self.attributes.get_str(key)
    }

    /// Stores `value` under `key`.
    pub fn set(&mut self, key: &str, value: &str)
        ensures
            final(self)@ == old(self)@.insert(key@, value@),
            final(self).modified_view(),
            final(self).id_view() == old(self).id_view(),
            final(self).new_view() == old(self).new_view(),
            final(self).invalidated_view() == old(self).invalidated_view(),
    {
        self.attributes.insert(key.to_owned(), value.to_owned());
        self.modified = true;
    }

    /// Removes `key`, returning its previous value.
    pub fn remove(&mut self, key: &str) -> (r: Option<String>)
        ensures
            final(self)@ == old(self)@.remove(key@),
            match r {
                Some(v) => old(self)@.dom().contains(key@) && old(self)@[key@] == v@,
                None => !old(self)@.dom().contains(key@),
            },
            final(self).modified_view() == (old(self).modified_view() || r.is_some()),
            final(self).id_view() == old(self).id_view(),
            final(self).new_view() == old(self).new_view(),
            final(self).invalidated_view() == old(self).invalidated_view(),
    {
        let r = self.attributes.remove(key);
        if r.is_some() {
            self.modified = true;
        }
        r
    }

    /// Removes every attribute.
    pub fn clear(&mut self)
        ensures
            final(self)@ == Map::<Seq<char>, Seq<char>>::empty(),
            final(self).modified_view() == (old(self).modified_view() || old(self)@
                != Map::<Seq<char>, Seq<char>>::empty()),
            final(self).id_view() == old(self).id_view(),
            final(self).new_view() == old(self).new_view(),
            final(self).invalidated_view() == old(self).invalidated_view(),
    {
        if !self.attributes.is_empty() {
            self.modified = true;
        }
        self.attributes.clear();
    }

    /// Drops every attribute and marks the session for deletion on commit.
    pub fn invalidate(&mut self)
        ensures
            final(self)@ == Map::<Seq<char>, Seq<char>>::empty(),
            final(self).invalidated_view(),
            final(self).modified_view(),
            final(self).id_view() == old(self).id_view(),
            final(self).new_view() == old(self).new_view(),
    {
        self.attributes.clear();
        self.invalidated = true;
        self.modified = true;
    }

    /// All attributes.
    pub fn attributes(&self) -> (r: &StringMap)
        ensures
            r@ == self@,
    {
        &self.attributes
    }

    /// A copy of the attributes, as handed to a session store.
    pub fn take_for_save(&self) -> (r: StringMap)
        ensures
            r@ == self@,
    {
        self.attributes.duplicate()
    }
}

} // verus!
