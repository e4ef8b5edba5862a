//! The sound cues that the simulation asks for.

use vstd::prelude::*;

verus! {

/// A sound for the host to play; which sample it picks is its own affair.
#[derive(Debug, Clone, Copy, PartialEq, Eq, Structural)]
pub enum Cue {
    /// A bullet was fired.
    Pew,
    /// Something touched an asteroid.
    Collision,
    /// A bullet destroyed an asteroid.
    Explosion,
}

} // verus!
