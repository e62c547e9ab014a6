//! Session persistence contract and the process-local store.

use vstd::prelude::*;
use vstd::rwlock::{RwLock, RwLockPredicate};

use crate::session::error::SessionError;
use crate::session::map::StringMap;

verus! {

/// Persists attribute maps by opaque session id.
///
/// Apps implement this for their backend; [`MemorySessionStore`] keeps
/// sessions in process memory.
pub trait SessionStore {
    /// Whether `r` is an answer this store can give when asked for `id` (by
    /// default, any answer).
    open spec fn loaded(&self, id: Seq<char>, r: Result<Option<StringMap>, SessionError>) -> bool {
        true
    }

    /// Attributes stored under `id`, if any.
    fn load(&self, id: &str) -> (r: Result<Option<StringMap>, SessionError>)
        ensures
            self.loaded(id@, r),
    ;

    /// Whether `r` is an answer this store can give when asked to store
    /// `attributes` under `id` (by default, any answer).
    open spec fn saved(
        &self,
        id: Seq<char>,
        attributes: Map<Seq<char>, Seq<char>>,
        r: Result<(), SessionError>,
    ) -> bool {
        true
    }

    /// Whether `r` is an answer this store can give when asked to forget `id`
    /// (by default, any answer).
    open spec fn deleted(&self, id: Seq<char>, r: Result<(), SessionError>) -> bool {
        true
    }

    /// Stores `attributes` under `id`, replacing what was there.
    fn save(&self, id: &str, attributes: &StringMap) -> (r: Result<(), SessionError>)
        ensures
            self.saved(id@, attributes@, r),
    ;

    /// Forgets `id`.
    fn delete(&self, id: &str) -> (r: Result<(), SessionError>)
        ensures
            self.deleted(id@, r),
    ;
}

/// Every table is acceptable in the store's lock.
pub struct AnyTable;

impl RwLockPredicate<Vec<(String, StringMap)>> for AnyTable {
    open spec fn inv(self, v: Vec<(String, StringMap)>) -> bool {
        true
    }
}

/// Process-local session store (tests, single node).
pub struct MemorySessionStore {
    sessions: RwLock<Vec<(String, StringMap)>, AnyTable>,
}

/// `r` is an error exactly for the empty id, and then [`SessionError::InvalidId`]
/// naming it.
pub open spec fn refused_empty_id(id: Seq<char>, r: Result<(), SessionError>) -> bool {
    (id.len() == 0 <==> r is Err) && (r matches Err(e) ==> e matches SessionError::InvalidId {
        id: x,
    } && x@ == id)
}

fn invalid_id(id: &str) -> (e: SessionError)
    ensures
        e matches SessionError::InvalidId { id: x } && x@ == id@,
{
    SessionError::InvalidId { id: id.to_owned() }
}

fn position(table: &Vec<(String, StringMap)>, id: &String) -> (r: Option<usize>)
    ensures
        match r {
            Some(i) => i < table.len() && table@[i as int].0@ == id@,
            None => forall|j: int| 0 <= j < table.len() ==> table@[j].0@ != id@,
        },
{
    let mut i: usize = 0;
    while i < table.len()
        invariant
            i <= table.len(),
            forall|j: int| 0 <= j < i ==> table@[j].0@ != id@,
        decreases table.len() - i,
    {
        if table[i].0 == *id {
            return Some(i);
        }
        i = i + 1;
    }
    None
}

impl MemorySessionStore {
    /// Empty store.
    pub fn new() -> (s: MemorySessionStore) {
        MemorySessionStore { sessions: RwLock::new(Vec::new(), Ghost(AnyTable)) }
    }
}

impl SessionStore for MemorySessionStore {
    /// An empty id is refused; any other id gets the stored attributes or
    /// `None`.
    open spec fn loaded(&self, id: Seq<char>, r: Result<Option<StringMap>, SessionError>) -> bool {
        (id.len() == 0 <==> r is Err) && (r matches Err(e) ==> e matches SessionError::InvalidId {
            id: x,
        } && x@ == id)
    }

    /// An empty id is refused; any other is stored.
    open spec fn saved(
        &self,
        id: Seq<char>,
        attributes: Map<Seq<char>, Seq<char>>,
        r: Result<(), SessionError>,
    ) -> bool {
        refused_empty_id(id, r)
    }

    /// An empty id is refused; any other is forgotten.
    open spec fn deleted(&self, id: Seq<char>, r: Result<(), SessionError>) -> bool {
        refused_empty_id(id, r)
    }

    fn load(&self, id: &str) -> (r: Result<Option<StringMap>, SessionError>)
        ensures
            id@.len() == 0 <==> r is Err,
            r matches Err(e) ==> e matches SessionError::InvalidId { id: x } && x@ == id@,
    {
        if id.is_empty() {
            return Err(invalid_id(id));
        }
        let key = id.to_owned();
        let handle = self.sessions.acquire_read();
        let table = handle.borrow();
        let found = match position(table, &key) {
            Some(i) => Some(table[i].1.duplicate()),
            None => None,
        };
        handle.release_read();
        Ok(found)
    }

    fn save(&self, id: &str, attributes: &StringMap) -> (r: Result<(), SessionError>)
        ensures
            id@.len() == 0 <==> r is Err,
            r matches Err(e) ==> e matches SessionError::InvalidId { id: x } && x@ == id@,
    {
        if id.is_empty() {
            return Err(invalid_id(id));
        }
        let key = id.to_owned();
        let (mut table, handle) = self.sessions.acquire_write();
        match position(&table, &key) {
            Some(i) => {
                table.set(i, (key, attributes.duplicate()));
            },
            None => {
                table.push((key, attributes.duplicate()));
            },
        }
        handle.release_write(table);
        Ok(())
    }

    fn delete(&self, id: &str) -> (r: Result<(), SessionError>)
        ensures
            id@.len() == 0 <==> r is Err,
            r matches Err(e) ==> e matches SessionError::InvalidId { id: x } && x@ == id@,
    {
        if id.is_empty() {
            return Err(invalid_id(id));
        }
        let key = id.to_owned();
        let (mut table, handle) = self.sessions.acquire_write();
        if let Some(i) = position(&table, &key) {
            table.remove(i);
        }
        handle.release_write(table);
        Ok(())
    }
}

} // verus!
