//! The closed vocabulary of primitive commands the agent can execute and of
//! the outcome shapes they can produce. Every outcome-interpreting component
//! consumes exactly this alphabet.

use vstd::prelude::*;
use crate::turtle_rotation::RelativeDirection;
use crate::vec3::Vec3;
use crate::text::str_eq;

verus! {

/// A primitive command for the agent.
#[derive(PartialEq, Eq, Structural, Clone, Copy, Hash, Debug)]
pub enum TurtleAction {
    Turn { direction: RelativeDirection },
    Move { direction: RelativeDirection },
    Dig { direction: RelativeDirection },
    Detect { direction: RelativeDirection },
    Place { direction: RelativeDirection },
    Drop { direction: RelativeDirection },
    Attack { direction: RelativeDirection },
    Suck { direction: RelativeDirection },
    Inspect { direction: RelativeDirection },
    Compare { direction: RelativeDirection },
    Select { slot: u8 },
    ItemCount { slot: u8 },
    ItemSpace { slot: u8 },
    ItemDetail { slot: u8 },
    TransferTo { slot: u8 },
    CompareTo { slot: u8 },
    GpsLocate { timeout_ms: u32, debug: bool },
    Stop,
}

/// A categorized reason the agent reports for a failed command.
#[derive(PartialEq, Eq, Structural, Clone, Copy, Hash, Debug)]
pub enum FailureReason {
    MovementObstructed,
    NoBlockToInspect,
    NoItemsToPlace,
    CanNotPlaceItemHere,
    CanNotPlaceBlockHere,
    NothingToDigHere,
    NothingToAttackHere,
    NoItemsToTake,
    NoItemsToDrop,
    SlotIsEmpty,
    NoSpaceForItems,
    UnbreakableBlockDetected,
    GpsLocateFailure,
}

/// The outcome of one executed command: plain success, a categorized
/// failure, a boolean probe result, a count, a structured inspection or item
/// detail (name plus key/value rows), or a resolved GPS coordinate.
#[derive(PartialEq, Eq, Clone, Debug)]
pub enum TurtleActionReturn {
    Success,
    Failure(FailureReason),
    InspectSuccess(String, Vec<(String, String)>),
    DetailSuccess(Vec<(String, String)>),
    Boolean(bool),
    Number(u32),
    Coordinate(Vec3),
}

/// Is a slot index within the agent's inventory range?
pub open spec fn slot_in_range(slot: u8) -> bool {
    1 <= slot <= 16
}

/// Is the direction legal for the kind of action it is attached to? A turn
/// can only go left or right; a move cannot; the directional tool actions
/// only point forward, up or down.
pub open spec fn action_wf(a: TurtleAction) -> bool {
    match a {
        TurtleAction::Turn { direction } =>
            direction == RelativeDirection::Left || direction == RelativeDirection::Right,
        TurtleAction::Move { direction } =>
            direction == RelativeDirection::Forward || direction == RelativeDirection::Backward
            || direction == RelativeDirection::Up || direction == RelativeDirection::Down,
        TurtleAction::Dig { direction }
        | TurtleAction::Detect { direction }
        | TurtleAction::Place { direction }
        | TurtleAction::Drop { direction }
        | TurtleAction::Attack { direction }
        | TurtleAction::Suck { direction }
        | TurtleAction::Inspect { direction }
        | TurtleAction::Compare { direction } =>
            direction == RelativeDirection::Forward || direction == RelativeDirection::Up
            || direction == RelativeDirection::Down,
        TurtleAction::Select { slot }
        | TurtleAction::ItemCount { slot }
        | TurtleAction::ItemSpace { slot }
        | TurtleAction::ItemDetail { slot }
        | TurtleAction::TransferTo { slot }
        | TurtleAction::CompareTo { slot } => slot_in_range(slot),
        TurtleAction::GpsLocate { .. } => true,
        TurtleAction::Stop => true,
    }
}

/// Can executing this action legitimately report this outcome? This is the
/// closed compatibility relation of the protocol: moves, turns and the
/// tool actions report success or a categorized failure; probing and
/// comparing report a boolean; counting reports a number; inspection and
/// item detail report their structured result or a failure; a GPS request
/// reports a coordinate or a failure; a stop is never executed at all.
pub open spec fn compatible(a: TurtleAction, o: TurtleActionReturn) -> bool {
    match a {
        TurtleAction::Move { .. } | TurtleAction::Turn { .. } | TurtleAction::Dig { .. }
        | TurtleAction::Place { .. } | TurtleAction::Drop { .. } | TurtleAction::Attack { .. }
        | TurtleAction::Suck { .. } | TurtleAction::TransferTo { .. } =>
            o is Success || o is Failure,
        TurtleAction::Detect { .. } | TurtleAction::Compare { .. } | TurtleAction::Select { .. }
        | TurtleAction::CompareTo { .. } => o is Boolean,
        TurtleAction::Inspect { .. } => o is InspectSuccess || o is Failure,
        TurtleAction::ItemDetail { .. } => o is DetailSuccess || o is Failure,
        TurtleAction::ItemCount { .. } | TurtleAction::ItemSpace { .. } => o is Number,
        TurtleAction::GpsLocate { .. } => o is Coordinate || o is Failure,
        TurtleAction::Stop => false,
    }
}

/// Exec mirror of `compatible`.
pub fn outcome_compatible(a: &TurtleAction, o: &TurtleActionReturn) -> (r: bool)
    ensures
        r == compatible(*a, *o),
{
    match a {
        TurtleAction::Move { .. } | TurtleAction::Turn { .. } | TurtleAction::Dig { .. }
        | TurtleAction::Place { .. } | TurtleAction::Drop { .. } | TurtleAction::Attack { .. }
        | TurtleAction::Suck { .. } | TurtleAction::TransferTo { .. } =>
            matches!(o, TurtleActionReturn::Success | TurtleActionReturn::Failure(_)),
        TurtleAction::Detect { .. } | TurtleAction::Compare { .. } | TurtleAction::Select { .. }
        | TurtleAction::CompareTo { .. } => matches!(o, TurtleActionReturn::Boolean(_)),
        TurtleAction::Inspect { .. } =>
            matches!(o, TurtleActionReturn::InspectSuccess(_, _) | TurtleActionReturn::Failure(_)),
        TurtleAction::ItemDetail { .. } =>
            matches!(o, TurtleActionReturn::DetailSuccess(_) | TurtleActionReturn::Failure(_)),
        TurtleAction::ItemCount { .. } | TurtleAction::ItemSpace { .. } =>
            matches!(o, TurtleActionReturn::Number(_)),
        TurtleAction::GpsLocate { .. } =>
            matches!(o, TurtleActionReturn::Coordinate(_) | TurtleActionReturn::Failure(_)),
        TurtleAction::Stop => false,
    }
}

/// The failure reason a given report line stands for, if it is a known one.
pub open spec fn spec_parse_failure_reason(s: Seq<char>) -> Option<FailureReason> {
    if s == "Movement obstructed"@ {
        Some(FailureReason::MovementObstructed)
    } else if s == "No block to inspect"@ {
        Some(FailureReason::NoBlockToInspect)
    } else if s == "No items to place"@ {
        Some(FailureReason::NoItemsToPlace)
    } else if s == "Cannot place item here"@ {
        Some(FailureReason::CanNotPlaceItemHere)
    } else if s == "Cannot place block here"@ {
        Some(FailureReason::CanNotPlaceBlockHere)
    } else if s == "Nothing to dig here"@ {
        Some(FailureReason::NothingToDigHere)
    } else if s == "Nothing to attack here"@ {
        Some(FailureReason::NothingToAttackHere)
    } else if s == "No items to take"@ {
        Some(FailureReason::NoItemsToTake)
    } else if s == "No items to drop"@ {
        Some(FailureReason::NoItemsToDrop)
    } else if s == "No space for items"@ {
        Some(FailureReason::NoSpaceForItems)
    } else if s == "Unbreakable block detected"@ {
        Some(FailureReason::UnbreakableBlockDetected)
    } else {
        None
    }
}

/// Classify the failure text the agent reported. An unrecognized text means
/// the vocabulary has grown without this parser being extended; the caller
/// decides how fatal that is.
pub fn parse_failure_reason(reason: &str) -> (r: Option<FailureReason>)
    ensures
        r == spec_parse_failure_reason(reason@),
{
    if str_eq(reason, "Movement obstructed") {
        Some(FailureReason::MovementObstructed)
    } else if str_eq(reason, "No block to inspect") {
        Some(FailureReason::NoBlockToInspect)
    } else if str_eq(reason, "No items to place") {
        Some(FailureReason::NoItemsToPlace)
    } else if str_eq(reason, "Cannot place item here") {
        Some(FailureReason::CanNotPlaceItemHere)
    } else if str_eq(reason, "Cannot place block here") {
        Some(FailureReason::CanNotPlaceBlockHere)
    } else if str_eq(reason, "Nothing to dig here") {
        Some(FailureReason::NothingToDigHere)
    } else if str_eq(reason, "Nothing to attack here") {
        Some(FailureReason::NothingToAttackHere)
    } else if str_eq(reason, "No items to take") {
        Some(FailureReason::NoItemsToTake)
    } else if str_eq(reason, "No items to drop") {
        Some(FailureReason::NoItemsToDrop)
    } else if str_eq(reason, "No space for items") {
        Some(FailureReason::NoSpaceForItems)
    } else if str_eq(reason, "Unbreakable block detected") {
        Some(FailureReason::UnbreakableBlockDetected)
    } else {
        None
    }
}

} // verus!
