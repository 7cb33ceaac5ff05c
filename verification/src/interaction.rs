//! The pointer's relation to a visual element.

use vstd::prelude::*;

verus! {

/// What the pointer is doing to a visual element.
#[derive(Clone, Copy, Debug, PartialEq, Eq, Structural)]
pub enum Interaction {
    /// The pointer is held down on the element.
    Pressed,
    /// The pointer is over the element.
    Hovered,
    /// The pointer is elsewhere.
    Idle,
}

} // verus!
