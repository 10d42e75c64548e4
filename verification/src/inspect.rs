//! Inspection action constructors.

use vstd::prelude::*;
use crate::turtle_action::TurtleAction;
use crate::turtle_rotation::RelativeDirection;

verus! {

pub fn forward() -> (r: TurtleAction)
    ensures
        r == (TurtleAction::Inspect { direction: RelativeDirection::Forward }),
{
    TurtleAction::Inspect { direction: RelativeDirection::Forward }
}

pub fn up() -> (r: TurtleAction)
    ensures
        r == (TurtleAction::Inspect { direction: RelativeDirection::Up }),
{
    TurtleAction::Inspect { direction: RelativeDirection::Up }
}

pub fn down() -> (r: TurtleAction)
    ensures
        r == (TurtleAction::Inspect { direction: RelativeDirection::Down }),
{
    TurtleAction::Inspect { direction: RelativeDirection::Down }
}

} // verus!
