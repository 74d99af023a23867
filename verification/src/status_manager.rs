//! Utility to manage the status of Kubernetes resources.

use vstd::prelude::*;
use vstd::std_specs::cmp::*;

verus! {

/// Keeps the status of a resource, and tells when it has to be updated.
#[derive(Debug)]
pub struct StatusManager<S> {
    id: String,
    name: String,
    old: Option<S>,
    current: S,
}

impl<S: Clone + PartialEq> StatusManager<S> {
    /// The identifier of the resource.
    pub closed spec fn identifier(self) -> Seq<char> {
        self.id@
    }

    /// The name of the resource.
    pub closed spec fn resource_name(self) -> Seq<char> {
        self.name@
    }

    /// The status that the resource has, if it has one.
    pub closed spec fn published(self) -> Option<S> {
        self.old
    }

    /// The status that the resource is to have.
    pub closed spec fn wanted(self) -> S {
        self.current
    }

    /// Whether the status that the resource has is not the one that it is to have.
    pub open spec fn outdated(self) -> bool {
        match self.published() {
            Some(status) => !self.wanted().eq_spec(&status),
            None => true,
        }
    }

    /// Create a manager for the status of a resource. If the resource has no status then the given
    /// default is what it is to have.
    pub fn new(id: String, name: String, status: Option<S>, default: S) -> (r: Self)
        ensures
            r.identifier() == id@,
            r.resource_name() == name@,
            r.published() == status,
            match status {
                Some(s) => cloned(s, r.wanted()),
                None => r.wanted() == default,
            },
    {
        let current: S = match &status {
            Some(s) => s.clone(),
            None => default,
        };
        StatusManager { id, name, old: status, current }
    }

    /// The identifier of the resource.
    pub fn id(&self) -> (r: &str)
        ensures
            r@ == self.identifier(),
    {
        self.id.as_str()
    }

    /// The name of the resource.
    pub fn name(&self) -> (r: &str)
        ensures
            r@ == self.resource_name(),
    {
        self.name.as_str()
    }

    /// The status that the resource is to have.
    pub fn get(&self) -> (r: &S)
        ensures
            *r == self.wanted(),
    {
        &self.current
    }

    /// Set the status that the resource is to have.
    pub fn set(&mut self, status: S)
        ensures
            final(self).wanted() == status,
            final(self).published() == old(self).published(),
            final(self).identifier() == old(self).identifier(),
            final(self).resource_name() == old(self).resource_name(),
    {
        self.current = status;
    }

    /// Change the status that the resource is to have.
    pub fn update<F: FnOnce(S) -> S>(&mut self, func: F)
        requires
            forall|s: S| #[trigger] func.requires((s,)),
        ensures
            final(self).published() == old(self).published(),
            final(self).identifier() == old(self).identifier(),
            final(self).resource_name() == old(self).resource_name(),
            exists|copy: S| #[trigger]
                cloned(old(self).wanted(), copy) && func.ensures((copy,), final(self).wanted()),
    {
        let copy: S = self.current.clone();
        let ghost before = copy;
        let status: S = func(copy);
        proof {
            assert(cloned(old(self).wanted(), before));
        }
        self.set(status);
    }

    /// Whether the status of the resource is not what it is to be.
    fn is_outdated(&self) -> (r: bool)
        ensures
            S::obeys_eq_spec() ==> r == self.outdated(),
    {
        match &self.old {
            Some(status) => !(self.current == *status),
            None => true,
        }
    }

    /// Find out whether the status of the resource has to be updated. From then on it is the one that
    /// it was to have, so it doesn't have to be updated again until another one is set.
    pub fn sync(&mut self) -> (r: bool)
        ensures
            S::obeys_eq_spec() ==> r == old(self).outdated(),
            final(self).wanted() == old(self).wanted(),
            final(self).identifier() == old(self).identifier(),
            final(self).resource_name() == old(self).resource_name(),
            if r {
                final(self).published() matches Some(copy) && cloned(old(self).wanted(), copy)
            } else {
                final(self).published() == old(self).published()
            },
            S::obeys_eq_spec() && (forall|a: S, b: S| #[trigger] cloned(a, b) ==> a.eq_spec(&b))
                ==> !final(self).outdated(),
    {
        if !self.is_outdated() {
            return false;
        }
        let copy: S = self.current.clone();
        self.old = Some(copy);
        true
    }
}

} // verus!
