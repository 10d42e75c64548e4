//! Comparison action constructors.

use vstd::prelude::*;
use crate::turtle_action::TurtleAction;
use crate::turtle_rotation::RelativeDirection;

verus! {

pub fn forward() -> (r: TurtleAction)
    ensures
        r == (TurtleAction::Compare { direction: RelativeDirection::Forward }),
{
    TurtleAction::Compare { direction: RelativeDirection::Forward }
}

pub fn up() -> (r: TurtleAction)
    ensures
        r == (TurtleAction::Compare { direction: RelativeDirection::Up }),
{
    TurtleAction::Compare { direction: RelativeDirection::Up }
}

pub fn down() -> (r: TurtleAction)
    ensures
        r == (TurtleAction::Compare { direction: RelativeDirection::Down }),
{
    TurtleAction::Compare { direction: RelativeDirection::Down }
}

} // verus!
