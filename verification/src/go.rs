//! Movement action constructors.

use vstd::prelude::*;
use crate::turtle_action::TurtleAction;
use crate::turtle_rotation::RelativeDirection;

verus! {

pub fn forward() -> (r: TurtleAction)
    ensures
        r == (TurtleAction::Move { direction: RelativeDirection::Forward }),
{
    TurtleAction::Move { direction: RelativeDirection::Forward }
}

pub fn backward() -> (r: TurtleAction)
    ensures
        r == (TurtleAction::Move { direction: RelativeDirection::Backward }),
{
    TurtleAction::Move { direction: RelativeDirection::Backward }
}

pub fn up() -> (r: TurtleAction)
    ensures
        r == (TurtleAction::Move { direction: RelativeDirection::Up }),
{
    TurtleAction::Move { direction: RelativeDirection::Up }
}

pub fn down() -> (r: TurtleAction)
    ensures
        r == (TurtleAction::Move { direction: RelativeDirection::Down }),
{
    TurtleAction::Move { direction: RelativeDirection::Down }
}

} // verus!
