//! Digging action constructors.

use vstd::prelude::*;
use crate::turtle_action::TurtleAction;
use crate::turtle_rotation::RelativeDirection;

verus! {

pub fn forward() -> (r: TurtleAction)
    ensures
        r == (TurtleAction::Dig { direction: RelativeDirection::Forward }),
{
    TurtleAction::Dig { direction: RelativeDirection::Forward }
}

pub fn up() -> (r: TurtleAction)
    ensures
        r == (TurtleAction::Dig { direction: RelativeDirection::Up }),
{
    TurtleAction::Dig { direction: RelativeDirection::Up }
}

pub fn down() -> (r: TurtleAction)
    ensures
        r == (TurtleAction::Dig { direction: RelativeDirection::Down }),
{
    TurtleAction::Dig { direction: RelativeDirection::Down }
}

} // verus!
