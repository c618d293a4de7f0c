//! Resource types that are discovered and transported through the network.

use vstd::prelude::*;

use crate::text::owned;

verus! {

/// Resource type identifier.
#[derive(Debug, Clone, PartialEq, Eq, Hash)]
pub struct ResourceType(pub String);

impl ResourceType {
    /// Create a new resource type.
    pub fn new(name: &str) -> (r: ResourceType)
        ensures
            r.0@ == name@,
    {
        ResourceType(owned(name))
    }

    /// Get the resource type name.
    pub fn name(&self) -> (r: &str)
        ensures
            r@ == self.0@,
    {
        self.0.as_str()
    }
}

impl From<&str> for ResourceType {
    /// The resource type named `s`.
    fn from(s: &str) -> (r: ResourceType)
        ensures
            r.0@ == s@,
    {
        ResourceType(owned(s))
    }
}

impl vstd::std_specs::convert::FromSpecImpl<&str> for ResourceType {
    /// No spec function gives the value: the name is a new `String`, of
    /// which `from` states the text.
    open spec fn obeys_from_spec() -> bool {
        false
    }

    open spec fn from_spec(v: &str) -> ResourceType {
        arbitrary()
    }
}

impl From<String> for ResourceType {
    /// The resource type named `s`.
    fn from(s: String) -> (r: ResourceType) {
        ResourceType(s)
    }
}

impl vstd::std_specs::convert::FromSpecImpl<String> for ResourceType {
    open spec fn obeys_from_spec() -> bool {
        true
    }

    open spec fn from_spec(v: String) -> ResourceType {
        ResourceType(v)
    }
}

} // verus!
