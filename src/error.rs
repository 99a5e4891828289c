//! Errors of the simulation core. All of them are fatal to a session.

use vstd::prelude::*;

verus! {

#[derive(Debug, Clone, Copy, PartialEq, Eq, Structural)]
pub enum GameError {
    /// A save was requested for a frame other than the current one.
    FrameConsistency,
    /// A saved buffer is missing or is not a well-formed game state.
    StateCorruption,
    /// A player's input buffer could not be decoded.
    InputDecode,
}

} // verus!
