//! Names of Kubernetes resources.

use vstd::prelude::*;

verus! {

/// What a resource is called.
#[derive(Debug)]
pub struct ResourceName {
    /// The API version of the resource.
    pub api_version: String,
    /// The kind of the resource.
    pub kind: String,
    /// The namespace of the resource.
    pub namespace: Option<String>,
    /// The name of the resource.
    pub name: String,
}

/// The name of a resource with its namespace.
pub open spec fn full_name(namespace: Option<Seq<char>>, name: Seq<char>) -> Seq<char> {
    match namespace {
        Some(namespace) => namespace + "/"@ + name,
        None => name,
    }
}

/// See [`full_name`].
pub fn join_name(namespace: Option<&str>, name: &str) -> (r: String)
    ensures
        r@ == full_name(
            match namespace {
                Some(n) => Some(n@),
                None => None,
            },
            name@,
        ),
{
    match namespace {
        Some(namespace) => namespace.to_owned().concat("/").concat(name),
        None => name.to_owned(),
    }
}

/// Names that are made from the parts of the name of a resource.
pub trait ResourceLocalExt {
    /// The parts of the name.
    spec fn parts(&self) -> (Seq<char>, Seq<char>, Option<Seq<char>>, Seq<char>);

    /// Get a description of the type of the resource in the form {api_version}/{kind}.
    fn kind_with_version(&self) -> (r: String)
        ensures
            r@ == self.parts().0 + "/"@ + self.parts().1,
    ;

    /// Get the name including the namespace for this resource.
    fn full_name(&self) -> (r: String)
        ensures
            r@ == full_name(self.parts().2, self.parts().3),
    ;

    /// Get a string that uniquely represent this resouce in the form of
    /// {kind_with_version}/{full_name}.
    fn id(&self) -> (r: String)
        ensures
            r@ == self.parts().0 + "/"@ + self.parts().1 + "/"@ + full_name(
                self.parts().2,
                self.parts().3,
            ),
    ;
}

impl ResourceLocalExt for ResourceName {
    open spec fn parts(&self) -> (Seq<char>, Seq<char>, Option<Seq<char>>, Seq<char>) {
        (
            self.api_version@,
            self.kind@,
            crate::with_source::path_of(self.namespace),
            self.name@,
        )
    }

    fn kind_with_version(&self) -> (r: String) {
        self.api_version.clone().concat("/").concat(self.kind.as_str())
    }

    fn full_name(&self) -> (r: String) {
        match &self.namespace {
            Some(namespace) => join_name(Some(namespace.as_str()), self.name.as_str()),
            None => join_name(None, self.name.as_str()),
        }
    }

    fn id(&self) -> (r: String) {
        self.kind_with_version().concat("/").concat(self.full_name().as_str())
    }
}

} // verus!
