//! Item pickup action constructors.

use vstd::prelude::*;
use crate::turtle_action::TurtleAction;
use crate::turtle_rotation::RelativeDirection;

verus! {

pub fn forward() -> (r: TurtleAction)
    ensures
        r == (TurtleAction::Suck { direction: RelativeDirection::Forward }),
{
    TurtleAction::Suck { direction: RelativeDirection::Forward }
}

pub fn up() -> (r: TurtleAction)
    ensures
        r == (TurtleAction::Suck { direction: RelativeDirection::Up }),
{
    TurtleAction::Suck { direction: RelativeDirection::Up }
}

pub fn down() -> (r: TurtleAction)
    ensures
        r == (TurtleAction::Suck { direction: RelativeDirection::Down }),
{
    TurtleAction::Suck { direction: RelativeDirection::Down }
}

} // verus!
