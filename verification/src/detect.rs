//! Detection action constructors.

use vstd::prelude::*;
use crate::turtle_action::TurtleAction;
use crate::turtle_rotation::RelativeDirection;

verus! {

pub fn forward() -> (r: TurtleAction)
    ensures
        r == (TurtleAction::Detect { direction: RelativeDirection::Forward }),
{
    TurtleAction::Detect { direction: RelativeDirection::Forward }
}

pub fn up() -> (r: TurtleAction)
    ensures
        r == (TurtleAction::Detect { direction: RelativeDirection::Up }),
{
    TurtleAction::Detect { direction: RelativeDirection::Up }
}

pub fn down() -> (r: TurtleAction)
    ensures
        r == (TurtleAction::Detect { direction: RelativeDirection::Down }),
{
    TurtleAction::Detect { direction: RelativeDirection::Down }
}

} // verus!
