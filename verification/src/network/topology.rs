//! Node identifiers of the hyphal network.

use vstd::prelude::*;

verus! {

/// Node identifier in the hyphal network.
#[derive(Debug, Clone, Copy, PartialEq, Eq, Hash, Structural)]
pub struct NodeId(pub u64);

impl NodeId {
    /// Create a new NodeId from a u64 value.
    pub fn new(id: u64) -> (r: NodeId)
        ensures
            r.0 == id,
    {
        NodeId(id)
    }

    /// Get the underlying u64 value.
    pub fn value(&self) -> (r: u64)
        ensures
            r == self.0,
    {
        self.0
    }
}

/// Making a node identifier from a value and reading it back gives the
/// value.
pub proof fn lemma_node_id_round_trip(id: u64)
    ensures
        NodeId(id).0 == id,
{
}

} // verus!
