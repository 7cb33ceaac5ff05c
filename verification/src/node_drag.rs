//! Whether a drag on a node moves the node, and by how much.

use crate::interaction::Interaction;
use vstd::prelude::*;

verus! {

/// What a drag event does to the node that it targets.
#[derive(Clone, Copy, Debug, PartialEq)]
pub enum NodeDrag<D> {
    /// The node stays where it is.
    Stay,
    /// The node's offset moves by this much.
    MoveBy(D),
}

/// None of the visuals has the pointer on it.
pub open spec fn all_idle(interactions: Seq<Interaction>) -> bool {
    forall|i: int| 0 <= i < interactions.len() ==> #[trigger] interactions[i] == Interaction::Idle
}

/// Decides what a drag that targets a node does to it. `descendants` holds
/// the pointer's relation to each descendant of the node that reports one,
/// and `delta` is how far the pointer moved in this event. While the pointer
/// is on any descendant, the gesture belongs to that descendant, a connector
/// for one, and the node stays. Otherwise the node moves by exactly `delta`.
pub fn be_dragging_node<D>(descendants: &Vec<Interaction>, delta: D) -> (drag: NodeDrag<D>)
    ensures
        drag == if all_idle(descendants@) {
            NodeDrag::MoveBy(delta)
        } else {
            NodeDrag::Stay
        },
{
    let mut i: usize = 0;
    while i < descendants.len()
        invariant
            i <= descendants.len(),
            forall|k: int| 0 <= k < i ==> #[trigger] descendants@[k] == Interaction::Idle,
        decreases descendants.len() - i,
    {
        if descendants[i] != Interaction::Idle {
            return NodeDrag::Stay;
        }
        i += 1;
    }
    NodeDrag::MoveBy(delta)
}

} // verus!
