//! Whether the simulation advances.

use vstd::prelude::*;

verus! {

/// Simulation state of a world: generations advance only while `Playing`.
#[derive(Copy, Clone, Debug, PartialEq, Eq, Structural)]
pub enum State {
    Paused,
    Playing,
}

impl State {
    /// The other state.
    pub open spec fn flipped(self) -> State {
        match self {
            State::Paused => State::Playing,
            State::Playing => State::Paused,
        }
    }

    /// Flips `Paused` to `Playing` and back.
    pub fn toggled(self) -> (r: State)
        ensures
            r == self.flipped(),
    {
        match self {
            State::Paused => State::Playing,
            State::Playing => State::Paused,
        }
    }
}

} // verus!
