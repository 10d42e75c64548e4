//! The library's error vocabulary. Geometric impossibilities and
//! unrecognized action/outcome pairings are fail-fast conditions: they mean
//! the model has diverged from reality or a component needs extension, and a
//! session must stop rather than guess. Program-selection problems are
//! ordinary configuration errors reported to the caller.

use vstd::prelude::*;

verus! {

#[derive(PartialEq, Eq, Structural, Clone, Copy, Hash, Debug)]
pub enum TurtleError {
    /// A GPS fix contradicts the calibrated transform, or two displacements
    /// are not related by a pure yaw: the world model has diverged.
    GeometricInconsistency,
    /// An action kind reached a component that has no handler for it: the
    /// component must be extended, not silently skipped.
    UnsupportedAction,
    /// A recorded path holds a step outside the closed movement vocabulary.
    MalformedHistory,
    /// A program was asked for its next action when it had none left.
    NoInstructions,
    /// An unknown program name was requested.
    InvalidProgram,
    /// A program argument did not parse.
    MalformedArgument,
    /// The positioning service gave no fix and the program cannot go on
    /// without one.
    GpsUnavailable,
    /// A persisted world snapshot has an unrecognized version tag or a
    /// malformed line: a corrupt state file cannot be silently patched.
    MalformedStateFile,
    /// An action was paired with an outcome it can never produce: the
    /// session layer has diverged from the protocol.
    IncompatibleOutcome,
}

} // verus!
