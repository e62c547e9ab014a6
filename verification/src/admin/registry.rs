//! Registry of admin resources.

use vstd::prelude::*;

use crate::admin::error::AdminError;
use crate::admin::resource::AdminResource;

verus! {

/// Whether some resource in `rs` is named `name`.
pub open spec fn has_resource(rs: Seq<AdminResource>, name: Seq<char>) -> bool {
    exists|i: int| 0 <= i < rs.len() && rs[i].name_view() == name
}

/// Configured resources in registration order, one per name.
#[derive(Debug)]
pub struct AdminRegistry {
    resources: Vec<AdminResource>,
}

impl View for AdminRegistry {
    type V = Seq<AdminResource>;

    closed spec fn view(&self) -> Seq<AdminResource> {
        self.resources@
    }
}

impl AdminRegistry {
    #[verifier::type_invariant]
    closed spec fn wf(&self) -> bool {
        forall|i: int, j: int|
            0 <= i < j < self.resources@.len() ==> self.resources@[i].name_view()
                != self.resources@[j].name_view()
    }

    /// Empty registry.
    pub fn new() -> (r: AdminRegistry)
        ensures
            r@ == Seq::<AdminResource>::empty(),
    {
        AdminRegistry { resources: Vec::new() }
    }

    fn position(&self, name: &str) -> (r: Option<usize>)
        ensures
            match r {
                Some(i) => i < self@.len() && self@[i as int].name_view() == name@,
                None => !has_resource(self@, name@),
            },
    {
        let mut i: usize = 0;
        while i < self.resources.len()
            invariant
                i <= self.resources.len(),
                forall|j: int| 0 <= j < i ==> self.resources@[j].name_view() != name@,
            decreases self.resources.len() - i,
        {
            if crate::text::str_eq(self.resources[i].name(), name) {
                return Some(i);
            }
            i = i + 1;
        }
        None
    }

    /// Registers `resource`; a name already present is refused with
    /// [`AdminError::DuplicateResource`], leaving the registry as it was.
    pub fn register(&mut self, resource: AdminResource) -> (r: Result<(), AdminError>)
        ensures
            match r {
                Ok(()) => !has_resource(old(self)@, resource.name_view()) && final(self)@ == old(
                    self,
                )@.push(resource),
                Err(e) => has_resource(old(self)@, resource.name_view()) && final(self)@ == old(
                    self,
                )@ && (e matches AdminError::DuplicateResource { name } && name@
                    == resource.name_view()),
            },
    {
        proof {
            use_type_invariant(&*self);
        }
        if self.position(resource.name()).is_some() {
            return Err(AdminError::DuplicateResource { name: resource.name().to_owned() });
        }
        let ghost rv = resource;
        let mut resources: Vec<AdminResource> = Vec::new();
        std::mem::swap(&mut resources, &mut self.resources);
        resources.push(resource);
        proof {
            assert forall|i: int, j: int| 0 <= i < j < resources@.len() implies resources@[i].name_view()
                != resources@[j].name_view() by {
                if j == resources@.len() - 1 {
                    assert(resources@[j] == rv);
                    assert(resources@[i] == old(self)@[i]);
                }
            }
        }
        self.resources = resources;
        Ok(())
    }

    /// All resources in registration order.
    pub fn resources(&self) -> (r: &[AdminResource])
        ensures
            r@ == self@,
            forall|i: int, j: int| 0 <= i < j < r@.len() ==> r@[i].name_view() != r@[j].name_view(),
    {
        proof {
            use_type_invariant(self);
        }
        self.resources.as_slice()
    }

    /// The resource named `name`.
    pub fn get(&self, name: &str) -> (r: Option<&AdminResource>)
        ensures
            match r {
                Some(x) => exists|i: int|
                    0 <= i < self@.len() && self@[i] == *x && self@[i].name_view() == name@,
                None => !has_resource(self@, name@),
            },
    {
        match self.position(name) {
            Some(i) => Some(&self.resources[i]),
            None => None,
        }
    }
}

} // verus!
