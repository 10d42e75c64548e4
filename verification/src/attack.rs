//! Attack action constructors.

use vstd::prelude::*;
use crate::turtle_action::TurtleAction;
use crate::turtle_rotation::RelativeDirection;

verus! {

pub fn forward() -> (r: TurtleAction)
    ensures
        r == (TurtleAction::Attack { direction: RelativeDirection::Forward }),
{
    TurtleAction::Attack { direction: RelativeDirection::Forward }
}

pub fn up() -> (r: TurtleAction)
    ensures
        r == (TurtleAction::Attack { direction: RelativeDirection::Up }),
{
    TurtleAction::Attack { direction: RelativeDirection::Up }
}

pub fn down() -> (r: TurtleAction)
    ensures
        r == (TurtleAction::Attack { direction: RelativeDirection::Down }),
{
    TurtleAction::Attack { direction: RelativeDirection::Down }
}

} // verus!
