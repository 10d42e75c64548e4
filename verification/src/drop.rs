//! Item dropping action constructors.

use vstd::prelude::*;
use crate::turtle_action::TurtleAction;
use crate::turtle_rotation::RelativeDirection;

verus! {

pub fn forward() -> (r: TurtleAction)
    ensures
        r == (TurtleAction::Drop { direction: RelativeDirection::Forward }),
{
    TurtleAction::Drop { direction: RelativeDirection::Forward }
}

pub fn up() -> (r: TurtleAction)
    ensures
        r == (TurtleAction::Drop { direction: RelativeDirection::Up }),
{
    TurtleAction::Drop { direction: RelativeDirection::Up }
}

pub fn down() -> (r: TurtleAction)
    ensures
        r == (TurtleAction::Drop { direction: RelativeDirection::Down }),
{
    TurtleAction::Drop { direction: RelativeDirection::Down }
}

} // verus!
