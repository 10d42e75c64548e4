//! GPS action constructor.

use vstd::prelude::*;
use crate::turtle_action::TurtleAction;

verus! {

/// A locate request with the default timeout.
pub fn locate() -> (r: TurtleAction)
    ensures
        r == (TurtleAction::GpsLocate { timeout_ms: 2000u32, debug: false }),
{
    TurtleAction::GpsLocate { timeout_ms: 2000, debug: false }
}

} // verus!
