//! Turning action constructors.

use vstd::prelude::*;
use crate::turtle_action::TurtleAction;
use crate::turtle_rotation::RelativeDirection;

verus! {

pub fn left() -> (r: TurtleAction)
    ensures
        r == (TurtleAction::Turn { direction: RelativeDirection::Left }),
{
    TurtleAction::Turn { direction: RelativeDirection::Left }
}

pub fn right() -> (r: TurtleAction)
    ensures
        r == (TurtleAction::Turn { direction: RelativeDirection::Right }),
{
    TurtleAction::Turn { direction: RelativeDirection::Right }
}

} // verus!
