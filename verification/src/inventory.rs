//! Inventory action constructors, each taking the slot it acts on.

use vstd::prelude::*;
use crate::turtle_action::TurtleAction;

verus! {

pub fn select(slot: u8) -> (r: TurtleAction)
    ensures
        r == (TurtleAction::Select { slot }),
{
    TurtleAction::Select { slot }
}

pub fn count(slot: u8) -> (r: TurtleAction)
    ensures
        r == (TurtleAction::ItemCount { slot }),
{
    TurtleAction::ItemCount { slot }
}

pub fn space(slot: u8) -> (r: TurtleAction)
    ensures
        r == (TurtleAction::ItemSpace { slot }),
{
    TurtleAction::ItemSpace { slot }
}

pub fn detail(slot: u8) -> (r: TurtleAction)
    ensures
        r == (TurtleAction::ItemDetail { slot }),
{
    TurtleAction::ItemDetail { slot }
}

pub fn transfer_to(slot: u8) -> (r: TurtleAction)
    ensures
        r == (TurtleAction::TransferTo { slot }),
{
    TurtleAction::TransferTo { slot }
}

pub fn compare_to(slot: u8) -> (r: TurtleAction)
    ensures
        r == (TurtleAction::CompareTo { slot }),
{
    TurtleAction::CompareTo { slot }
}

} // verus!
