use vstd::prelude::*;

verus! {

/// Every way a call of this library can fail. None of them is fatal: the
/// caller can branch on each.
#[derive(Debug, PartialEq, Eq)]
pub enum GymError {
    /// The action does not fit the session's action space, or the engine
    /// refused it.
    InvalidAction,
    /// An engine value could not be read as the expected kind of data.
    InvalidConversion,
    /// A value was projected to a variant it is not.
    WrongType,
    /// The engine's reply to a step did not have the expected shape.
    WrongStepResult,
    /// The engine's reply to a reset did not have the expected shape.
    WrongResetResult,
    /// The engine refused the seed.
    InvalidSeed,
    /// The engine refused the render mode.
    InvalidRenderMode,
    /// The engine could not make the environment: its id and what the
    /// engine said.
    InvalidMake(String, String),
    /// The engine describes a space of a kind this library does not model.
    UnrecognizedDescriptor(String),
    /// A space description of a known kind lacks a field or breaks the
    /// space's invariant.
    InvalidDescriptor,
    /// The session was closed.
    Closed,
}

} // verus!
