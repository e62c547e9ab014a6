//! One list/show row: an id and field values (apps map their entities here).

use vstd::prelude::*;

use crate::session::map::StringMap;

verus! {

/// Display row for admin HTML.
#[derive(Clone, Debug)]
pub struct AdminRow {
    id: String,
    values: StringMap,
}

impl AdminRow {
    pub closed spec fn id_view(&self) -> Seq<char> {
        self.id@
    }

    pub closed spec fn values_view(&self) -> Map<Seq<char>, Seq<char>> {
        self.values@
    }

    /// The values as stored, in order.
    pub closed spec fn value_pairs(&self) -> Seq<(Seq<char>, Seq<char>)> {
        self.values.pairs()
    }

    /// Row `id` without values.
    pub fn new(id: &str) -> (r: AdminRow)
        ensures
            r.id_view() == id@,
            r.values_view() == Map::<Seq<char>, Seq<char>>::empty(),
    {
        AdminRow { id: id.to_owned(), values: StringMap::new() }
    }

    /// The row with `field` set to `value`.
    pub fn with(self, field: &str, value: &str) -> (r: AdminRow)
        ensures
            r.id_view() == self.id_view(),
            r.values_view() == self.values_view().insert(field@, value@),
    {
        let mut r = self;
        r.values.insert(field.to_owned(), value.to_owned());
        r
    }

    /// Row id (the path's `{id}`).
    pub fn id(&self) -> (r: &str)
        ensures
            r@ == self.id_view(),
    {
        self.id.as_str()
    }

    /// Value of `field`, or empty text when the row has none.
    pub fn get(&self, field: &str) -> (r: &str)
        ensures
            r@ == row_value(self.values_view(), field@),
    {
        match self.values.get_str(field) {
            Some(v) => v,
            None => {
                let e = "";
                proof {
                    reveal_strlit("");
                }
                e
            },
        }
    }

    /// All field values.
    pub fn values(&self) -> (r: &StringMap)
        ensures
            r@ == self.values_view(),
            r.pairs() == self.value_pairs(),
    {
        &self.values
    }
}

/// Value of `field` in `values`, empty when absent.
pub open spec fn row_value(values: Map<Seq<char>, Seq<char>>, field: Seq<char>) -> Seq<char> {
    if values.dom().contains(field) {
        values[field]
    } else {
        Seq::empty()
    }
}

} // verus!
