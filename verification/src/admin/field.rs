//! Field descriptors for admin list, show and form pages.

use vstd::prelude::*;

verus! {

/// One column or property shown in admin HTML.
#[derive(Clone, Debug, PartialEq, Eq)]
pub struct AdminField {
    name: String,
    label: String,
}

impl AdminField {
    pub closed spec fn name_view(&self) -> Seq<char> {
        self.name@
    }

    pub closed spec fn label_view(&self) -> Seq<char> {
        self.label@
    }

    /// Field `name` shown as `label`.
    pub fn new(name: &str, label: &str) -> (f: AdminField)
        ensures
            f.name_view() == name@,
            f.label_view() == label@,
    {
        AdminField { name: name.to_owned(), label: label.to_owned() }
    }

    /// Field whose label is its name.
    pub fn named(name: &str) -> (f: AdminField)
        ensures
            f.name_view() == name@,
            f.label_view() == name@,
    {
        AdminField { name: name.to_owned(), label: name.to_owned() }
    }

    /// Property key (matches the row's values).
    pub fn name(&self) -> (r: &str)
        ensures
            r@ == self.name_view(),
    {
        self.name.as_str()
    }

    /// Display label.
    pub fn label(&self) -> (r: &str)
        ensures
            r@ == self.label_view(),
    {
        self.label.as_str()
    }
}

} // verus!
