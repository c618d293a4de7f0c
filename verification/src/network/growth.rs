//! Statistics and events of network growth.

use vstd::prelude::*;

use crate::network::topology::NodeId;

verus! {

/// Statistics about network growth.
#[derive(Debug, Clone, Copy, PartialEq, Eq, Structural)]
pub struct GrowthStats {
    /// Total branching events.
    pub total_branches: usize,
    /// Total extension events.
    pub total_extensions: usize,
    /// Total fusion events.
    pub total_fusions: usize,
    /// Total pruned edges.
    pub total_pruned: usize,
}

impl Default for GrowthStats {
    /// No events yet: every count zero.
    fn default() -> (r: GrowthStats)
        ensures
            r == (GrowthStats {
                total_branches: 0,
                total_extensions: 0,
                total_fusions: 0,
                total_pruned: 0,
            }),
    {
        GrowthStats { total_branches: 0, total_extensions: 0, total_fusions: 0, total_pruned: 0 }
    }
}

/// Growth event for logging.
#[derive(Debug)]
pub enum GrowthEvent {
    /// A tip branched into multiple tips.
    Branch {
        /// The parent node that branched
        parent: NodeId,
        /// The child nodes created by branching
        children: Vec<NodeId>,
    },
    /// A tip extended forward.
    Extension {
        /// Source node of the extension
        from: NodeId,
        /// Destination node of the extension
        to: NodeId,
    },
    /// Two tips fused.
    Fusion {
        /// First tip in the fusion
        tip_a: NodeId,
        /// Second tip in the fusion
        tip_b: NodeId,
    },
    /// An edge was pruned.
    Prune {
        /// The edge that was pruned (source, target)
        edge: (NodeId, NodeId),
    },
}

impl Clone for GrowthEvent {
    /// A copy of the event.
    fn clone(&self) -> (r: GrowthEvent)
        ensures
            match *self {
                GrowthEvent::Branch { parent, children } => r matches GrowthEvent::Branch {
                    parent: p,
                    children: c,
                } && p == parent && c@ == children@,
                _ => r == *self,
            },
    {
        match self {
            GrowthEvent::Branch { parent, children } => {
                let c = children.clone();
                assert(c@ =~= children@);
                GrowthEvent::Branch { parent: *parent, children: c }
            },
            GrowthEvent::Extension { from, to } => GrowthEvent::Extension { from: *from, to: *to },
            GrowthEvent::Fusion { tip_a, tip_b } => GrowthEvent::Fusion { tip_a: *tip_a, tip_b: *tip_b },
            GrowthEvent::Prune { edge } => GrowthEvent::Prune { edge: *edge },
        }
    }
}

} // verus!
