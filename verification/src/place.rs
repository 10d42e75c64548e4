//! Placement action constructors.

use vstd::prelude::*;
use crate::turtle_action::TurtleAction;
use crate::turtle_rotation::RelativeDirection;

verus! {

pub fn forward() -> (r: TurtleAction)
    ensures
        r == (TurtleAction::Place { direction: RelativeDirection::Forward }),
{
    TurtleAction::Place { direction: RelativeDirection::Forward }
}

pub fn up() -> (r: TurtleAction)
    ensures
        r == (TurtleAction::Place { direction: RelativeDirection::Up }),
{
    TurtleAction::Place { direction: RelativeDirection::Up }
}

pub fn down() -> (r: TurtleAction)
    ensures
        r == (TurtleAction::Place { direction: RelativeDirection::Down }),
{
    TurtleAction::Place { direction: RelativeDirection::Down }
}

} // verus!
