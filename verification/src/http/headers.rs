//! Case-insensitive header map.

use vstd::prelude::*;

use crate::session::map::StringMap;
use crate::text::{chars_of, string_of};

verus! {

/// ASCII lower-case form of `c`.
pub open spec fn lower_char(c: char) -> char {
    if 'A' <= c && c <= 'Z' {
        ((c as u32) + 32) as char
    } else {
        c
    }
}

/// ASCII lower-case form of `s` (`str::to_ascii_lowercase`).
pub open spec fn lower(s: Seq<char>) -> Seq<char> {
    s.map_values(|c: char| lower_char(c))
}

fn lower_one(c: char) -> (r: char)
    ensures
        r == lower_char(c),
{
    if 'A' <= c && c <= 'Z' {
        let u: u8 = c as u8;
        let l: u8 = u + 32;
        assert(l as char == ((c as u32) + 32) as char);
        l as char
    } else {
        c
    }
}

/// ASCII lower-case copy of `s`.
pub fn to_ascii_lowercase(s: &str) -> (out: String)
    ensures
        out@ == lower(s@),
{
    let v = chars_of(s);
    let mut out: Vec<char> = Vec::new();
    let mut i: usize = 0;
    while i < v.len()
        invariant
            i <= v.len(),
            out@ == lower(v@.take(i as int)),
        decreases v.len() - i,
    {
        out.push(lower_one(v[i]));
        assert(lower(v@.take(i as int + 1)) =~= lower(v@.take(i as int)).push(lower_char(v@[i as int])));
        i = i + 1;
    }
    assert(v@.take(v.len() as int) =~= v@);
    string_of(&out)
}

/// Header names ignore ASCII case: a value stored under `name` (as
/// [`Headers::insert`] stores it, under `lower(name)`) is what a lookup of
/// any spelling `other` of the same name finds (as [`Headers::get`] looks
/// it up, under `lower(other)`); stored names are already lower-cased.
pub proof fn lemma_header_names_ignore_case(
    h: Map<Seq<char>, Seq<char>>,
    name: Seq<char>,
    other: Seq<char>,
    value: Seq<char>,
)
    requires
        name.len() == other.len(),
        forall|i: int| 0 <= i < name.len() ==> lower_char(#[trigger] name[i]) == lower_char(other[i]),
    ensures
        h.insert(lower(name), value).dom().contains(lower(other)),
        h.insert(lower(name), value)[lower(other)] == value,
        lower(lower(name)) == lower(name),
{
    assert(lower(name) =~= lower(other));
    assert(lower(lower(name)) =~= lower(name));
}

/// Header map; names are compared without regard to ASCII case and stored
/// lower-cased.
#[derive(Clone, Debug, Default)]
pub struct Headers {
    map: StringMap,
}

impl View for Headers {
    type V = Map<Seq<char>, Seq<char>>;

    /// Lower-cased names to values.
    closed spec fn view(&self) -> Map<Seq<char>, Seq<char>> {
        self.map@
    }
}

impl Headers {
    /// No headers.
    pub fn new() -> (h: Headers)
        ensures
            h@ == Map::<Seq<char>, Seq<char>>::empty(),
    {
        Headers { map: StringMap::new() }
    }

    /// Adds or replaces the header `name`.
    pub fn insert(&mut self, name: &str, value: &str)
        ensures
            final(self)@ == old(self)@.insert(lower(name@), value@),
    {
        self.map.insert(to_ascii_lowercase(name), value.to_owned());
    }

    /// Value of the header `name`, in any case.
    pub fn get(&self, name: &str) -> (r: Option<&str>)
        ensures
            match r {
                Some(v) => self@.dom().contains(lower(name@)) && self@[lower(name@)] == v@,
                None => !self@.dom().contains(lower(name@)),
            },
    {
        let key = to_ascii_lowercase(name);
        self.map.get_str(key.as_str())
    }

    /// Whether no header is set.
    pub fn is_empty(&self) -> (r: bool)
        ensures
            r == (self@ == Map::<Seq<char>, Seq<char>>::empty()),
    {
        self.map.is_empty()
    }

    /// Number of headers.
    pub fn len(&self) -> (r: usize)
        ensures
            r == self@.dom().len(),
    {
        self.map.len()
    }

    /// `(name, value)` pairs, names lower-cased.
    pub fn pairs(&self) -> (r: Vec<(String, String)>)
        ensures
            crate::session::map::assoc_map(crate::session::map::pairs_view(r@)) == self@,
    {
        self.map.to_pairs()
    }
}

} // verus!
